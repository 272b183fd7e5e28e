//! The content model of OpenAI-compatible chat completions, and how the chunks of
//! a streamed completion build up a message.
use vstd::prelude::*;
use vstd::slice::slice_subrange;
use vstd::string::StrSliceExecFns;
use vstd::string::StringExecFns;

use crate::chars::{
    chars_of, find, find_from, has_prefix, lemma_find_from, push_char, starts_with, texts,
    trim_start, trim_start_index,
};
use crate::deep_inquire::{add_citations, merge_citations};
use crate::protocol::{ClientError, ClientErrorKind, EntityId, Message};
use crate::text::str_eq;

verus! {

/// The content of a [`ContentPart::ImageUrl`].
#[derive(Debug, Clone)]
pub struct ImageUrlDetail {
    pub url: String,
}

/// The content of a [`ContentPart::File`].
#[derive(Debug, Clone)]
pub struct File {
    pub filename: String,
    pub file_data: String,
}

/// Represents a single part in a multi-part content array of [`Content`].
#[derive(Debug, Clone)]
pub enum ContentPart {
    Text { text: String },
    ImageUrl { image_url: ImageUrlDetail },
    File { file: File },
}

/// Represents the `content` field, which can be a string or an array of [`ContentPart`].
#[derive(Debug, Clone)]
pub enum Content {
    Text(String),
    Parts(Vec<ContentPart>),
}

/// The texts of the text parts among `parts`, in order.
pub open spec fn part_texts(parts: Seq<ContentPart>) -> Seq<Seq<char>>
    decreases parts.len(),
{
    if parts.len() == 0 {
        Seq::empty()
    } else {
        let prev = part_texts(parts.drop_last());
        match parts.last() {
            ContentPart::Text { text } => prev.push(text@),
            _ => prev,
        }
    }
}

/// The texts of `v` joined by single spaces.
pub open spec fn join_spaced(v: Seq<Seq<char>>) -> Seq<char>
    decreases v.len(),
{
    if v.len() == 0 {
        Seq::empty()
    } else if v.len() == 1 {
        v[0]
    } else {
        join_spaced(v.drop_last()) + seq![' '] + v.last()
    }
}

/// The text of a content: the text itself, or the texts of its text parts joined
/// by spaces.
pub open spec fn content_text(c: Content) -> Seq<char> {
    match c {
        Content::Text(t) => t@,
        Content::Parts(parts) => join_spaced(part_texts(parts@)),
    }
}

impl Default for Content {
    fn default() -> (r: Content)
        ensures
            r matches Content::Text(t) && t@ == Seq::<char>::empty(),
    {
        Content::Text(String::new())
    }
}

impl Content {
    /// Returns the text content if available, otherwise an empty string.
    pub fn text(&self) -> (r: String)
        ensures
            r@ == content_text(*self),
    {
        match self {
            Content::Text(text) => text.clone(),
            Content::Parts(parts) => {
                let mut r = String::new();
                let mut first = true;
                let mut i: usize = 0;
                while i < parts.len()
                    invariant
                        i <= parts@.len(),
                        first == (part_texts(parts@.take(i as int)).len() == 0),
                        r@ == join_spaced(part_texts(parts@.take(i as int))),
                    decreases parts@.len() - i,
                {
                    let ghost before = part_texts(parts@.take(i as int));
                    assert(parts@.take(i + 1).drop_last() =~= parts@.take(i as int));
                    assert(parts@.take(i + 1).last() == parts@[i as int]);
                    match &parts[i] {
                        ContentPart::Text { text } => {
                            assert(before.push(text@).drop_last() =~= before);
                            if !first {
                                push_char(&mut r, ' ');
                            }
                            r.append(text.as_str());
                            first = false;
                        },
                        _ => {},
                    }
                    i += 1;
                }
                assert(parts@.take(parts@.len() as int) =~= parts@);
                r
            },
        }
    }
}

/// The tag that opens inlined reasoning.
pub open spec fn think_start() -> Seq<char> {
    seq!['<', 't', 'h', 'i', 'n', 'k', '>']
}

/// The tag that closes inlined reasoning.
pub open spec fn think_end() -> Seq<char> {
    seq!['<', '/', 't', 'h', 'i', 'n', 'k', '>']
}

/// The reasoning and the rest of `t`: where `t`, once leading white space is
/// dropped, starts with `<think>`, the reasoning is what follows up to the first
/// `</think>` (or everything, if the tag is not closed) and the rest is what
/// follows that tag. Otherwise there is no reasoning and the rest is `t`.
pub open spec fn spec_split_reasoning(t: Seq<char>) -> (Seq<char>, Seq<char>) {
    let s = trim_start(t);
    if has_prefix(s, think_start()) {
        let rest = s.skip(7);
        match find_from(rest, think_end(), 0) {
            Some(i) => (rest.take(i), rest.skip(i + 8)),
            None => (rest, Seq::empty()),
        }
    } else {
        (Seq::empty(), t)
    }
}

/// If a string starts with a `<think>` tag, split the content from the rest of the text.
/// - This happens in order, so first element of the tuple is the reasoning.
/// - If the tag is unclosed, everything goes to reasoning.
/// - If there is no tag, everything goes to the second element of the tuple.
pub fn split_reasoning_tag(text: &str) -> (r: (&str, &str))
    ensures
        r.0@ == spec_split_reasoning(text@).0,
        r.1@ == spec_split_reasoning(text@).1,
{
    let v = chars_of(text);
    let n = v.len();
    let k = trim_start_index(&v);
    let s = slice_subrange(&v, k, n);
    let open = vec!['<', 't', 'h', 'i', 'n', 'k', '>'];
    let close = vec!['<', '/', 't', 'h', 'i', 'n', 'k', '>'];
    assert(open@ =~= think_start());
    assert(close@ =~= think_end());
    if starts_with(s, &open) {
        let start = k + 7;
        let rest = slice_subrange(&v, start, n);
        assert(rest@ =~= trim_start(text@).skip(7));
        match find(rest, &close, 0) {
            Some(i) => {
                proof {
                    lemma_find_from(rest@, close@, 0);
                }
                let reasoning = text.substring_char(start, start + i);
                let after = text.substring_char(start + i + 8, n);
                assert(reasoning@ =~= rest@.take(i as int));
                assert(after@ =~= rest@.skip(i + 8));
                (reasoning, after)
            },
            None => {
                let reasoning = text.substring_char(start, n);
                let after = text.substring_char(n, n);
                assert(after@ =~= Seq::<char>::empty());
                (reasoning, after)
            },
        }
    } else {
        let none = text.substring_char(0, 0);
        assert(none@ =~= Seq::<char>::empty());
        (none, text)
    }
}

/// Message being received by the completions endpoint.
#[derive(Debug, Clone)]
pub struct IncomingMessage {
    pub content: Content,
    /// The reasoning text separated from the main content if provided.
    pub reasoning: String,
}

/// The Choice object as part of a streaming response.
#[derive(Debug, Clone)]
pub struct Choice {
    pub delta: IncomingMessage,
}

/// Response from the completions endpoint.
#[derive(Debug, Clone)]
pub struct Completion {
    pub choices: Vec<Choice>,
    pub citations: Vec<String>,
}

/// Role of a message that is part of the conversation context.
#[derive(Debug, Clone, Copy, PartialEq, Eq, Structural)]
pub enum Role {
    System,
    User,
    Assistant,
}

/// The role under which a message from `from` is sent to a model; messages of
/// the app itself, and those telling of tool calls, are not sent as chat messages.
pub open spec fn spec_role_of(from: EntityId) -> Option<Role> {
    match from {
        EntityId::User => Some(Role::User),
        EntityId::System => Some(Role::System),
        EntityId::Bot(_) => Some(Role::Assistant),
        EntityId::App => None,
        EntityId::Tool => None,
    }
}

/// The role under which a message from `from` is sent to a model, if it is sent.
pub fn role_of(from: &EntityId) -> (r: Option<Role>)
    ensures
        r == spec_role_of(*from),
{
    match from {
        EntityId::User => Some(Role::User),
        EntityId::System => Some(Role::System),
        EntityId::Bot(_) => Some(Role::Assistant),
        EntityId::App => None,
        EntityId::Tool => None,
    }
}

/// What one choice of a chunk makes of (full text, text, reasoning): its text is
/// appended to the full text, whose inlined reasoning is split off. The reasoning
/// is the split one where there is one, else the choice's reasoning is appended.
pub open spec fn choice_step(
    st: (Seq<char>, Seq<char>, Seq<char>),
    delta_text: Seq<char>,
    delta_reasoning: Seq<char>,
) -> (Seq<char>, Seq<char>, Seq<char>) {
    let full = st.0 + delta_text;
    let split = spec_split_reasoning(full);
    (full, split.1, if split.0.len() == 0 {
        st.2 + delta_reasoning
    } else {
        split.0
    })
}

/// The state after the choices of a chunk, taken in order.
pub open spec fn apply_choices(
    st: (Seq<char>, Seq<char>, Seq<char>),
    choices: Seq<Choice>,
) -> (Seq<char>, Seq<char>, Seq<char>)
    decreases choices.len(),
{
    if choices.len() == 0 {
        st
    } else {
        let c = choices.last();
        choice_step(
            apply_choices(st, choices.drop_last()),
            content_text(c.delta.content),
            c.delta.reasoning@,
        )
    }
}

/// Splitting off inlined reasoning loses nothing but the tags: where the text,
/// once leading white space is dropped, opens with `<think>` and closes it, it is
/// the opening tag, the reasoning, the closing tag and the rest; where the tag is
/// not closed, it is the opening tag and the reasoning, with nothing left; where
/// it does not open with the tag, there is no reasoning and the rest is the text.
pub proof fn law_split_reasoning_reassembles(t: Seq<char>)
    ensures
        ({
            let s = trim_start(t);
            let split = spec_split_reasoning(t);
            &&& has_prefix(s, think_start()) && find_from(s.skip(7), think_end(), 0) is Some
                ==> s == think_start() + split.0 + think_end() + split.1
            &&& has_prefix(s, think_start()) && find_from(s.skip(7), think_end(), 0) is None
                ==> s == think_start() + split.0 && split.1.len() == 0
            &&& !has_prefix(s, think_start()) ==> split.0.len() == 0 && split.1 == t
        }),
{
    let s = trim_start(t);
    if has_prefix(s, think_start()) {
        let rest = s.skip(7);
        lemma_find_from(rest, think_end(), 0);
        match find_from(rest, think_end(), 0) {
            Some(i) => {
                assert(rest.subrange(i, i + 8) == think_end());
                assert(s =~= think_start() + rest.take(i) + think_end() + rest.skip(i + 8));
            },
            None => {
                assert(s =~= think_start() + rest);
            },
        }
    }
}

/// Whether the JSON schema of a tool's parameters needs an empty `properties`
/// object to be accepted: it is an object schema (its `type` is the string
/// `object`) without `properties`.
pub fn needs_empty_properties(schema_type: Option<&str>, has_properties: bool) -> (r: bool)
    ensures
        r == (schema_type matches Some(t) && t@ == "object"@ && !has_properties),
{
    match schema_type {
        Some(t) => str_eq(t, "object") && !has_properties,
        None => false,
    }
}

/// What the chunks of a streamed completion have built of a message so far.
#[derive(Debug, Clone)]
pub struct StreamedContent {
    /// The text, without inlined reasoning.
    pub text: String,
    /// The reasoning, given apart or inlined in the text.
    pub reasoning: String,
    /// The sources cited, each once.
    pub citations: Vec<String>,
    /// The full text as it came, inlined reasoning included.
    pub full_text: String,
}

impl StreamedContent {
    /// Nothing received yet.
    pub fn new() -> (r: StreamedContent)
        ensures
            r.text@ == Seq::<char>::empty(),
            r.reasoning@ == Seq::<char>::empty(),
            r.citations@.len() == 0,
            r.full_text@ == Seq::<char>::empty(),
    {
        StreamedContent {
            text: String::new(),
            reasoning: String::new(),
            citations: Vec::new(),
            full_text: String::new(),
        }
    }

    /// Aggregates the deltas of one chunk: each choice in order, as `choice_step`
    /// says, then the citations that are new.
    pub fn apply_completion(&mut self, completion: &Completion)
        ensures
            (final(self).full_text@, final(self).text@, final(self).reasoning@)
                == apply_choices(
                (old(self).full_text@, old(self).text@, old(self).reasoning@),
                completion.choices@,
            ),
            texts(final(self).citations@) == merge_citations(
                texts(old(self).citations@),
                texts(completion.citations@),
            ),
    {
        let ghost start = (self.full_text@, self.text@, self.reasoning@);
        let mut i: usize = 0;
        while i < completion.choices.len()
            invariant
                i <= completion.choices@.len(),
                (self.full_text@, self.text@, self.reasoning@) == apply_choices(
                    start,
                    completion.choices@.take(i as int),
                ),
                self.citations == old(self).citations,
            decreases completion.choices@.len() - i,
        {
            let choice = &completion.choices[i];
            assert(completion.choices@.take(i + 1).drop_last() =~= completion.choices@.take(
                i as int,
            ));
            assert(completion.choices@.take(i + 1).last() == completion.choices@[i as int]);
            let delta_text = choice.delta.content.text();
            self.full_text.append(delta_text.as_str());
            let (reasoning, text) = split_reasoning_tag(self.full_text.as_str());
            let new_text = String::from_str(text);
            if reasoning.is_empty() {
                self.reasoning.append(choice.delta.reasoning.as_str());
            } else {
                self.reasoning = String::from_str(reasoning);
            }
            self.text = new_text;
            i += 1;
        }
        assert(completion.choices@.take(completion.choices@.len() as int) =~= completion.choices@);
        add_citations(&mut self.citations, &completion.citations);
    }
}

/// The text of the error given where a message of the conversation cannot be
/// sent to a model.
pub open spec fn conversion_error_text() -> Seq<char> {
    "Could not convert message to outgoing format."@
}

/// Every message of `messages` can be sent to a model (none is from the app
/// itself or tells of tool calls).
pub open spec fn all_sendable(messages: Seq<Message>) -> bool {
    forall|i: int| 0 <= i < messages.len() ==> (#[trigger] spec_role_of(messages[i].from)) is Some
}

/// The messages of a conversation as sent to a model: the role and text of
/// each, in order; a format error where one of them cannot be sent.
pub fn outgoing_messages(messages: &[Message]) -> (r: Result<Vec<(Role, String)>, ClientError>)
    ensures
        r is Ok <==> all_sendable(messages@),
        r matches Ok(v) ==> v@.len() == messages@.len() && forall|i: int|
            0 <= i < v@.len() ==> (#[trigger] v@[i]).0 == spec_role_of(messages@[i].from)->Some_0
                && v@[i].1@ == messages@[i].content.text@,
        r matches Err(e) ==> e.spec_kind() == ClientErrorKind::Format && e.spec_message()
            == conversion_error_text(),
{
    let mut v: Vec<(Role, String)> = Vec::new();
    let mut i: usize = 0;
    while i < messages.len()
        invariant
            i <= messages@.len(),
            v@.len() == i,
            forall|j: int| 0 <= j < i ==> (#[trigger] spec_role_of(messages@[j].from)) is Some,
            forall|j: int|
                0 <= j < i ==> (#[trigger] v@[j]).0 == spec_role_of(messages@[j].from)->Some_0
                    && v@[j].1@ == messages@[j].content.text@,
        decreases messages@.len() - i,
    {
        match role_of(&messages[i].from) {
            Some(role) => v.push((role, messages[i].content.text.clone())),
            None => {
                proof {
                    reveal_strlit("Could not convert message to outgoing format.");
                }
                return Err(
                    ClientError::new(
                        ClientErrorKind::Format,
                        String::from_str("Could not convert message to outgoing format."),
                    ),
                );
            },
        }
        i += 1;
    }
    Ok(v)
}

} // verus!
