//! The decisions of the OpenAI Realtime client: where to connect, what each
//! message of the server means for the UI, and the settings of a session.
use vstd::prelude::*;
use vstd::string::StringExecFns;

use base64::Engine;

use crate::chars::{chars_of, has_prefix, starts_with};
use crate::bots::{listed_bot, listed_bots};
use crate::protocol::{bot_id_text, Bot, BotCapabilities, BotCapability, BotId, RealtimeEvent, Tool};

verus! {

#[verifier::external_type_specification]
#[verifier::external_body]
pub struct ExJsonValue(serde_json::Value);

#[derive(Debug)]
pub struct NoiseReductionConfig {
    pub noise_reduction_type: String,
}

#[derive(Debug)]
pub struct FunctionCallOutputItem {
    pub item_type: String,
    pub call_id: String,
    pub output: String,
}

#[derive(Debug)]
pub struct ErrorDetails {
    pub code: Option<String>,
    pub message: String,
    pub param: Option<String>,
    pub error_type: Option<String>,
}

#[derive(Debug)]
pub struct ResponseDoneData {
    pub id: String,
    pub status: String,
    pub output: Vec<ResponseOutputItem>,
}

#[derive(Debug)]
pub enum ResponseOutputItem {
    FunctionCall { id: String, name: String, call_id: String, arguments: String, status: String },
    Other,
}

/// Incoming message types from OpenAI.
#[derive(Debug)]
pub enum OpenAIRealtimeResponse {
    Error { error: ErrorDetails },
    SessionCreated { session: serde_json::Value },
    SessionUpdated { session: serde_json::Value },
    ConversationItemCreated { item: serde_json::Value },
    ConversationItemTruncated { item: serde_json::Value },
    ResponseAudioDelta {
        response_id: String,
        item_id: String,
        output_index: u32,
        content_index: u32,
        delta: String,
    },
    ResponseAudioDone { response_id: String, item_id: String, output_index: u32, content_index: u32 },
    ResponseTextDelta {
        response_id: String,
        item_id: String,
        output_index: u32,
        content_index: u32,
        delta: String,
    },
    ResponseAudioTranscriptDelta {
        response_id: String,
        item_id: String,
        output_index: u32,
        content_index: u32,
        delta: String,
    },
    ResponseAudioTranscriptDone {
        response_id: String,
        item_id: String,
        output_index: u32,
        content_index: u32,
        transcript: String,
    },
    ConversationItemInputAudioTranscriptionCompleted {
        item_id: String,
        content_index: u32,
        transcript: String,
    },
    ResponseDone { response: ResponseDoneData },
    ResponseFunctionCallArgumentsDone {
        item_id: String,
        output_index: u32,
        sequence_number: u32,
        call_id: String,
        name: String,
        arguments: String,
    },
    ResponseFunctionCallArgumentsDelta {
        response_id: String,
        item_id: String,
        output_index: u32,
        call_id: String,
        delta: String,
    },
    InputAudioBufferSpeechStarted { audio_start_ms: u32, item_id: String },
    InputAudioBufferSpeechStopped { audio_end_ms: u32, item_id: String },
    Other,
}

/// Names the bytes that standard base64 (with padding) decodes from `text`;
/// `None` where `text` is not valid base64.
pub uninterp spec fn base64_decoded(text: Seq<char>) -> Option<Seq<u8>>;

/// Decodes standard base64 (`base64::engine::general_purpose::STANDARD.decode`),
/// giving `None` where the input is not valid.
#[verifier::external_body]
fn decode_base64(text: &str) -> (r: Option<Vec<u8>>)
    ensures
        match r {
            Some(bytes) => base64_decoded(text@) == Some(bytes@),
            None => base64_decoded(text@) is None,
        },
{
    base64::engine::general_purpose::STANDARD.decode(text).ok()
}

/// The name, call id and arguments of the first function call among `items`.
pub open spec fn first_function_call(items: Seq<ResponseOutputItem>) -> Option<
    (String, String, String),
>
    decreases items.len(),
{
    if items.len() == 0 {
        None
    } else {
        match items[0] {
            ResponseOutputItem::FunctionCall { name, call_id, arguments, .. } => Some(
                (name, call_id, arguments),
            ),
            ResponseOutputItem::Other => first_function_call(items.drop_first()),
        }
    }
}

/// What a completed response means: a request for its first function call,
/// where it has one, else the completion of the response.
pub fn response_done_event(response: &ResponseDoneData) -> (r: RealtimeEvent)
    ensures
        r == match first_function_call(response.output@) {
            Some((name, call_id, arguments)) => RealtimeEvent::FunctionCallRequest {
                name,
                call_id,
                arguments,
            },
            None => RealtimeEvent::ResponseCompleted,
        },
{
    let mut i: usize = 0;
    assert(response.output@.skip(0) =~= response.output@);
    while i < response.output.len()
        invariant
            i <= response.output@.len(),
            first_function_call(response.output@) == first_function_call(
                response.output@.skip(i as int),
            ),
        decreases response.output@.len() - i,
    {
        assert(response.output@.skip(i as int).drop_first() =~= response.output@.skip(i + 1));
        assert(response.output@.skip(i as int)[0] == response.output@[i as int]);
        if let ResponseOutputItem::FunctionCall { name, call_id, arguments, .. } =
            &response.output[i] {
            return RealtimeEvent::FunctionCallRequest {
                name: name.clone(),
                call_id: call_id.clone(),
                arguments: arguments.clone(),
            };
        }
        i += 1;
    }
    RealtimeEvent::ResponseCompleted
}

/// The event, if any, that a message of the server gives the UI: the session
/// is ready, audio (where its base64 decodes), transcripts, speech starting or
/// stopping, function calls, the completion of a response, or an error.
pub fn event_for_response(response: OpenAIRealtimeResponse) -> (r: Option<RealtimeEvent>)
    ensures
        match response {
            OpenAIRealtimeResponse::SessionCreated { .. } => r == Some(RealtimeEvent::SessionReady),
            OpenAIRealtimeResponse::ResponseAudioDelta { delta, .. } => match base64_decoded(
                delta@,
            ) {
                Some(bytes) => r matches Some(RealtimeEvent::AudioData(data)) && data@ == bytes,
                None => r is None,
            },
            OpenAIRealtimeResponse::ResponseAudioTranscriptDelta { delta, .. } => r == Some(
                RealtimeEvent::AudioTranscript(delta),
            ),
            OpenAIRealtimeResponse::ResponseAudioTranscriptDone { transcript, item_id, .. } => r
                == Some(RealtimeEvent::AudioTranscriptCompleted(transcript, item_id)),
            OpenAIRealtimeResponse::ConversationItemInputAudioTranscriptionCompleted {
                transcript,
                item_id,
                ..
            } => r == Some(RealtimeEvent::UserTranscriptCompleted(transcript, item_id)),
            OpenAIRealtimeResponse::InputAudioBufferSpeechStarted { .. } => r == Some(
                RealtimeEvent::SpeechStarted,
            ),
            OpenAIRealtimeResponse::InputAudioBufferSpeechStopped { .. } => r == Some(
                RealtimeEvent::SpeechStopped,
            ),
            OpenAIRealtimeResponse::ResponseDone { response } => r == Some(
                match first_function_call(response.output@) {
                    Some((name, call_id, arguments)) => RealtimeEvent::FunctionCallRequest {
                        name,
                        call_id,
                        arguments,
                    },
                    None => RealtimeEvent::ResponseCompleted,
                },
            ),
            OpenAIRealtimeResponse::Error { error } => r == Some(
                RealtimeEvent::Error(error.message),
            ),
            OpenAIRealtimeResponse::ResponseFunctionCallArgumentsDone {
                call_id,
                name,
                arguments,
                ..
            } => r == Some(RealtimeEvent::FunctionCallRequest { name, call_id, arguments }),
            _ => r is None,
        },
{
    match response {
        OpenAIRealtimeResponse::SessionCreated { .. } => Some(RealtimeEvent::SessionReady),
        OpenAIRealtimeResponse::ResponseAudioDelta { delta, .. } => {
            match decode_base64(delta.as_str()) {
                Some(audio_bytes) => Some(RealtimeEvent::AudioData(audio_bytes)),
                None => None,
            }
        },
        OpenAIRealtimeResponse::ResponseAudioTranscriptDelta { delta, .. } => Some(
            RealtimeEvent::AudioTranscript(delta),
        ),
        OpenAIRealtimeResponse::ResponseAudioTranscriptDone { transcript, item_id, .. } => Some(
            RealtimeEvent::AudioTranscriptCompleted(transcript, item_id),
        ),
        OpenAIRealtimeResponse::ConversationItemInputAudioTranscriptionCompleted {
            transcript,
            item_id,
            ..
        } => Some(RealtimeEvent::UserTranscriptCompleted(transcript, item_id)),
        OpenAIRealtimeResponse::InputAudioBufferSpeechStarted { .. } => Some(
            RealtimeEvent::SpeechStarted,
        ),
        OpenAIRealtimeResponse::InputAudioBufferSpeechStopped { .. } => Some(
            RealtimeEvent::SpeechStopped,
        ),
        OpenAIRealtimeResponse::ResponseDone { response } => Some(response_done_event(&response)),
        OpenAIRealtimeResponse::Error { error } => Some(RealtimeEvent::Error(error.message)),
        OpenAIRealtimeResponse::ResponseFunctionCallArgumentsDone {
            call_id,
            name,
            arguments,
            ..
        } => Some(RealtimeEvent::FunctionCallRequest { name, call_id, arguments }),
        _ => None,
    }
}

/// The address of the OpenAI Realtime API itself.
pub open spec fn openai_address() -> Seq<char> {
    "wss://api.openai.com"@
}

/// Where a session with the model `model` connects: on OpenAI's own API the model
/// goes in the query of the address; other providers take the address as it is.
pub open spec fn spec_session_url(address: Seq<char>, model: Seq<char>) -> Seq<char> {
    if has_prefix(address, openai_address()) {
        address + "?model="@ + model
    } else {
        address
    }
}

/// The models a realtime client lists.
pub open spec fn realtime_model_ids() -> Seq<Seq<char>> {
    seq![
        "gpt-realtime"@,
        "Qwen/Qwen2.5-0.5B-Instruct-GGUF"@,
        "Qwen/Qwen2.5-1.5B-Instruct-GGUF"@,
        "Qwen/Qwen2.5-3B-Instruct-GGUF"@,
        "unsloth/Qwen3-4B-Instruct-2507-GGUF"@,
    ]
}

/// A client of the OpenAI Realtime API, or of a server that speaks it.
#[derive(Clone, Debug)]
pub struct OpenAIRealtimeClient {
    address: String,
    api_key: Option<String>,
}

impl OpenAIRealtimeClient {
    /// The address the client connects to.
    pub closed spec fn spec_address(&self) -> Seq<char> {
        self.address@
    }

    /// The API key, if one was set.
    pub closed spec fn spec_api_key(&self) -> Option<Seq<char>> {
        match self.api_key {
            Some(k) => Some(k@),
            None => None,
        }
    }

    pub fn new(address: String) -> (r: OpenAIRealtimeClient)
        ensures
            r.spec_address() == address@,
            r.spec_api_key() is None,
    {
        OpenAIRealtimeClient { address, api_key: None }
    }

    /// Sets the API key sent when a session starts; this never fails.
    pub fn set_key(&mut self, api_key: &str) -> (r: Result<(), String>)
        ensures
            r is Ok,
            final(self).spec_address() == old(self).spec_address(),
            final(self).spec_api_key() == Some(api_key@),
    {
        self.api_key = Some(String::from_str(api_key));
        Ok(())
    }

    /// The address the client connects to.
    pub fn address(&self) -> (r: &str)
        ensures
            r@ == self.spec_address(),
    {
        self.address.as_str()
    }

    /// The API key, if one was set.
    pub fn api_key(&self) -> (r: Option<&str>)
        ensures
            match r {
                Some(k) => self.spec_api_key() == Some(k@),
                None => self.spec_api_key() is None,
            },
    {
        match &self.api_key {
            Some(k) => Some(k.as_str()),
            None => None,
        }
    }

    /// The models the client lists: OpenAI's realtime model and the models served
    /// by Dora. Each is shown by a microphone and supports realtime audio.
    pub fn supported_bots(&self) -> (r: Vec<Bot>)
        ensures
            r@.len() == realtime_model_ids().len(),
            forall|i: int|
                0 <= i < realtime_model_ids().len() ==> (#[trigger] r@[i])@ == listed_bot(
                    self.spec_address(),
                    realtime_model_ids()[i],
                    "🎤"@,
                    Set::empty().insert(BotCapability::Realtime),
                ),
    {
        let ids = [
            "gpt-realtime",
            "Qwen/Qwen2.5-0.5B-Instruct-GGUF",
            "Qwen/Qwen2.5-1.5B-Instruct-GGUF",
            "Qwen/Qwen2.5-3B-Instruct-GGUF",
            "unsloth/Qwen3-4B-Instruct-2507-GGUF",
        ];
        let capabilities = BotCapabilities::new().with_capability(BotCapability::Realtime);
        let r = listed_bots(self.address.as_str(), ids.as_slice(), "🎤", &capabilities);
        assert(ids@.len() == 5);
        assert forall|i: int| 0 <= i < 5 implies ids@[i]@ == realtime_model_ids()[i] by {}
        r
    }

    /// Where a session with the bot `bot_id` connects.
    pub fn session_url(&self, bot_id: &BotId) -> (r: String)
        requires
            bot_id.well_formed(),
        ensures
            forall|id: Seq<char>, provider: Seq<char>|
                bot_id@ == #[trigger] bot_id_text(id, provider) ==> r@ == spec_session_url(
                    self.spec_address(),
                    id,
                ),
    {
        let address = chars_of(self.address.as_str());
        let openai = chars_of("wss://api.openai.com");
        proof {
            reveal_strlit("wss://api.openai.com");
        }
        if starts_with(&address, &openai) {
            let mut url = self.address.clone();
            url.append("?model=");
            url.append(bot_id.id());
            url
        } else {
            self.address.clone()
        }
    }
}

/// The time of day an hour (0 to 23) falls in.
pub open spec fn spec_time_of_day(hour: u32) -> Seq<char> {
    if 6 <= hour < 12 {
        "morning"@
    } else if 12 <= hour < 18 {
        "afternoon"@
    } else {
        "evening"@
    }
}

/// The time of day an hour falls in: morning from 6 to 11, afternoon from 12 to
/// 17, evening otherwise.
pub fn time_of_day(hour: u32) -> (r: &'static str)
    ensures
        r@ == spec_time_of_day(hour),
{
    if hour >= 6 && hour < 12 {
        "morning"
    } else if hour >= 12 && hour < 18 {
        "afternoon"
    } else {
        "evening"
    }
}

/// How the model may choose tools: `none` where there is no tool, else `auto`.
pub fn tool_choice(tools: &[Tool]) -> (r: &'static str)
    ensures
        r@ == if tools@.len() == 0 {
            "none"@
        } else {
            "auto"@
        },
{
    if tools.len() == 0 {
        "none"
    } else {
        "auto"
    }
}

/// The item that carries the result of a function call back to the model.
pub fn function_call_output(call_id: String, output: String) -> (r: FunctionCallOutputItem)
    ensures
        r.item_type@ == "function_call_output"@,
        r.call_id == call_id,
        r.output == output,
{
    FunctionCallOutputItem {
        item_type: String::from_str("function_call_output"),
        call_id,
        output,
    }
}

} // verus!
