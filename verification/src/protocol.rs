//! The data exchanged between chats, clients and bots.
use vstd::prelude::*;
use vstd::string::StringExecFns;
use vstd::string::StringSliceAdditionalSpecFns;
use vstd::utf8::*;

use crate::text::{
    decimal, digit_char, digits_value, is_digit_byte, lemma_char_boundary_after, lemma_decimal_bytes,
    lemma_decimal_digits, lemma_decimal_injective, lemma_digits_value_prefix,
    lemma_encode_utf8_ascii_char, lemma_encode_utf8_concat, lemma_encode_utf8_injective,
    lemma_encode_utf8_len_at_least, str_eq, utf8_len,
};

verus! {

/// The text of the id of the bot known as `id` by the provider `provider`:
/// `<byte length of id>;<id>@<provider>`.
pub open spec fn bot_id_text(id: Seq<char>, provider: Seq<char>) -> Seq<char> {
    decimal(utf8_len(id)) + seq![';'] + id + seq!['@'] + provider
}

/// Two bot ids are the same text only when they have the same provider local id
/// and the same provider: the length prefix separates the components even when
/// they hold `;` or `@` themselves.
pub proof fn law_bot_id_text_injective(i1: Seq<char>, p1: Seq<char>, i2: Seq<char>, p2: Seq<char>)
    requires
        bot_id_text(i1, p1) == bot_id_text(i2, p2),
    ensures
        i1 == i2,
        p1 == p2,
{
    let t = bot_id_text(i1, p1);
    let d1 = decimal(utf8_len(i1));
    let d2 = decimal(utf8_len(i2));
    let r1 = i1 + seq!['@'] + p1;
    let r2 = i2 + seq!['@'] + p2;
    assert(t =~= d1 + seq![';'] + r1);
    assert(t =~= d2 + seq![';'] + r2);
    lemma_decimal_digits(utf8_len(i1));
    lemma_decimal_digits(utf8_len(i2));
    if d1.len() < d2.len() {
        assert(t[d1.len() as int] == ';');
        assert(t[d1.len() as int] == d2[d1.len() as int]);
    }
    if d2.len() < d1.len() {
        assert(t[d2.len() as int] == ';');
        assert(t[d2.len() as int] == d1[d2.len() as int]);
    }
    assert(d1 =~= t.subrange(0, d1.len() as int));
    assert(d2 =~= t.subrange(0, d2.len() as int));
    lemma_decimal_injective(utf8_len(i1), utf8_len(i2));
    assert(r1 =~= t.subrange(d1.len() as int + 1, t.len() as int));
    assert(r2 =~= t.subrange(d2.len() as int + 1, t.len() as int));
    if i1.len() < i2.len() {
        let x = i2.subrange(i1.len() as int, i2.len() as int);
        assert(i2 =~= i1 + x) by {
            assert forall|j: int| 0 <= j < i1.len() implies i2[j] == i1[j] by {
                assert(r1[j] == r2[j]);
            }
        }
        lemma_encode_utf8_concat(i1, x);
        lemma_encode_utf8_len_at_least(x);
    }
    if i2.len() < i1.len() {
        let x = i1.subrange(i2.len() as int, i1.len() as int);
        assert(i1 =~= i2 + x) by {
            assert forall|j: int| 0 <= j < i2.len() implies i1[j] == i2[j] by {
                assert(r1[j] == r2[j]);
            }
        }
        lemma_encode_utf8_concat(i2, x);
        lemma_encode_utf8_len_at_least(x);
    }
    assert(i1 =~= r1.subrange(0, i1.len() as int));
    assert(i2 =~= r2.subrange(0, i2.len() as int));
    assert(p1 =~= r1.subrange(i1.len() as int + 1, r1.len() as int));
    assert(p2 =~= r2.subrange(i2.len() as int + 1, r2.len() as int));
}

/// The single-digit string for `d`.
fn digit_str(d: usize) -> (r: &'static str)
    requires
        d < 10,
    ensures
        r@ == seq![digit_char(d as nat)],
{
    match d {
        0 => {
            proof {
                reveal_strlit("0");
            }
            "0"
        },
        1 => {
            proof {
                reveal_strlit("1");
            }
            "1"
        },
        2 => {
            proof {
                reveal_strlit("2");
            }
            "2"
        },
        3 => {
            proof {
                reveal_strlit("3");
            }
            "3"
        },
        4 => {
            proof {
                reveal_strlit("4");
            }
            "4"
        },
        5 => {
            proof {
                reveal_strlit("5");
            }
            "5"
        },
        6 => {
            proof {
                reveal_strlit("6");
            }
            "6"
        },
        7 => {
            proof {
                reveal_strlit("7");
            }
            "7"
        },
        8 => {
            proof {
                reveal_strlit("8");
            }
            "8"
        },
        _ => {
            proof {
                reveal_strlit("9");
            }
            "9"
        },
    }
}

/// The decimal numeral of `n`.
pub fn decimal_string(n: usize) -> (r: String)
    ensures
        r@ == decimal(n as nat),
    decreases n,
{
    if n < 10 {
        String::from_str(digit_str(n))
    } else {
        let mut s = decimal_string(n / 10);
        s.append(digit_str(n % 10));
        s
    }
}

/// The decimal numeral of `n`.
pub fn decimal_string_u64(n: u64) -> (r: String)
    ensures
        r@ == decimal(n as nat),
    decreases n,
{
    if n < 10 {
        String::from_str(digit_str(n as usize))
    } else {
        let mut s = decimal_string_u64(n / 10);
        s.append(digit_str((n % 10) as usize));
        s
    }
}

/// Identifies any kind of bot, local or remote, model or agent, whatever.
///
/// It MUST be globally unique and stable. It should be generated from a provider
/// local id and the domain or url of that provider.
///
/// For serialization, this is encoded as a single string.
#[derive(Hash, Debug)]
pub struct BotId(String);

impl Clone for BotId {
    fn clone(&self) -> (r: BotId)
        ensures
            r == *self,
            r@ == self@,
    {
        BotId(self.0.clone())
    }
}

impl View for BotId {
    type V = Seq<char>;

    closed spec fn view(&self) -> Seq<char> {
        self.0@
    }
}

impl PartialEq for BotId {
    fn eq(&self, other: &Self) -> (r: bool) {
        self.0 == other.0
    }
}

impl vstd::std_specs::cmp::PartialEqSpecImpl for BotId {
    open spec fn obeys_eq_spec() -> bool {
        true
    }

    open spec fn eq_spec(&self, other: &Self) -> bool {
        self@ == other@
    }
}

impl Eq for BotId {

}

impl Default for BotId {
    fn default() -> (r: BotId)
        ensures
            r@ == Seq::<char>::empty(),
    {
        BotId(String::new())
    }
}

impl BotId {
    /// The id text has the shape that [`BotId::new`] gives it.
    pub open spec fn well_formed(&self) -> bool {
        exists|i: Seq<char>, p: Seq<char>| self@ == #[trigger] bot_id_text(i, p)
    }

    /// The whole encoded text of this id.
    pub fn as_str(&self) -> (r: &str)
        ensures
            r@ == self@,
    {
        self.0.as_str()
    }

    /// Creates a new bot id from a provider local id and a provider domain or url.
    ///
    /// The id is encoded as `<id_len>;<id>@<provider>`, where `<id_len>` is the
    /// byte length of `id`. `@` is simply a semantic separator; the length is what
    /// separates the components, so these may include `@` characters.
    pub fn new(id: &str, provider: &str) -> (r: BotId)
        ensures
            r@ == bot_id_text(id@, provider@),
            r.well_formed(),
    {
        let id_len = id.as_bytes().len();
        let mut text = decimal_string(id_len);
        proof {
            reveal_strlit(";");
            reveal_strlit("@");
        }
        text.append(";");
        text.append(id);
        text.append("@");
        text.append(provider);
        let r = BotId(text);
        assert(r@ =~= bot_id_text(id@, provider@));
        r
    }

    /// The byte length of the provider local id and the text after the `;`.
    fn deconstruct(&self) -> (r: (usize, &str))
        requires
            self.well_formed(),
        ensures
            r.1.spec_bytes().len() <= usize::MAX,
            forall|i: Seq<char>, p: Seq<char>|
                self@ == #[trigger] bot_id_text(i, p) ==> r.0 == utf8_len(i) && r.1@ == i + seq!['@'] + p,
    {
        let ghost (gi, gp) = choose|i: Seq<char>, p: Seq<char>| self@ == #[trigger] bot_id_text(i, p);
        let ghost len = utf8_len(gi);
        let ghost head = decimal(len) + seq![';'];
        let ghost rest = gi + seq!['@'] + gp;
        let s = self.0.as_str();
        let bytes = s.as_bytes();
        let nbytes = bytes.len();
        proof {
            assert(self@ =~= head + rest);
            lemma_encode_utf8_concat(head, rest);
            lemma_encode_utf8_concat(decimal(len), seq![';']);
            lemma_encode_utf8_ascii_char(';');
            lemma_decimal_bytes(len);
            lemma_encode_utf8_concat(gi, seq!['@']);
            lemma_encode_utf8_concat(gi + seq!['@'], gp);
            lemma_encode_utf8_ascii_char('@');
        }
        let ghost dlen = decimal(len).len();
        let ghost digits = encode_utf8(decimal(len));
        assert(bytes@ =~= digits + seq![59u8] + encode_utf8(rest));
        let mut k: usize = 0;
        let mut n: usize = 0;
        while k < nbytes && bytes[k] != 59u8
            invariant
                nbytes == bytes@.len(),
                bytes@ == digits + seq![59u8] + encode_utf8(rest),
                digits.len() == dlen,
                forall|j: int| 0 <= j < dlen ==> #[trigger] is_digit_byte(digits[j]),
                digits_value(digits) == len,
                len <= usize::MAX,
                k <= dlen,
                n == digits_value(digits.take(k as int)),
            decreases nbytes - k,
        {
            proof {
                assert(k < dlen);
                assert(digits.take(k + 1).drop_last() =~= digits.take(k as int));
                assert(digits.take(k + 1).last() == bytes@[k as int]);
                assert(digits.take(dlen as int) =~= digits);
                lemma_digits_value_prefix(digits, k + 1, dlen as int);
                assert(is_digit_byte(digits[k as int]));
                assert(n * 10 + (bytes@[k as int] - 48) == digits_value(digits.take(k + 1)));
            }
            n = n * 10 + (bytes[k] - 48) as usize;
            k += 1;
        }
        assert(k == dlen);
        assert(digits.take(dlen as int) =~= digits);
        proof {
            lemma_char_boundary_after(head, rest);
        }
        let (_, raw) = s.split_at(k + 1);
        proof {
            assert(raw.spec_bytes() =~= encode_utf8(rest));
            lemma_encode_utf8_injective(raw@, rest);
            assert forall|i: Seq<char>, p: Seq<char>| self@ == bot_id_text(i, p) implies n == utf8_len(i)
                && raw@ == i + seq!['@'] + p by {
                law_bot_id_text_injective(i, p, gi, gp);
            }
        }
        (n, raw)
    }

    /// The id of the bot as it is known by its provider.
    ///
    /// This may not be globally unique.
    pub fn id(&self) -> (r: &str)
        requires
            self.well_formed(),
        ensures
            forall|i: Seq<char>, p: Seq<char>| self@ == #[trigger] bot_id_text(i, p) ==> r@ == i,
    {
        let ghost (gi, gp) = choose|i: Seq<char>, p: Seq<char>| self@ == #[trigger] bot_id_text(i, p);
        let (id_length, raw) = self.deconstruct();
        proof {
            assert(raw@ =~= gi + (seq!['@'] + gp));
            lemma_char_boundary_after(gi, seq!['@'] + gp);
        }
        let (id, _) = raw.split_at(id_length);
        proof {
            lemma_encode_utf8_concat(gi, seq!['@'] + gp);
            assert(id.spec_bytes() =~= encode_utf8(gi));
            lemma_encode_utf8_injective(id@, gi);
            assert forall|i: Seq<char>, p: Seq<char>| self@ == bot_id_text(i, p) implies id@ == i by {
                law_bot_id_text_injective(i, p, gi, gp);
            }
        }
        id
    }

    /// The provider component of this bot id.
    pub fn provider(&self) -> (r: &str)
        requires
            self.well_formed(),
        ensures
            forall|i: Seq<char>, p: Seq<char>| self@ == #[trigger] bot_id_text(i, p) ==> r@ == p,
    {
        let ghost (gi, gp) = choose|i: Seq<char>, p: Seq<char>| self@ == #[trigger] bot_id_text(i, p);
        let (id_length, raw) = self.deconstruct();
        proof {
            lemma_encode_utf8_concat(gi, seq!['@']);
            lemma_encode_utf8_ascii_char('@');
            lemma_char_boundary_after(gi + seq!['@'], gp);
            lemma_encode_utf8_concat(gi + seq!['@'], gp);
            assert(raw@ =~= (gi + seq!['@']) + gp);
            lemma_encode_utf8_len_at_least(gp);
        }
        // + 1 skips the semantic `@` separator
        let (_, provider) = raw.split_at(id_length + 1);
        proof {
            assert(raw@ =~= (gi + seq!['@']) + gp);
            assert(provider.spec_bytes() =~= encode_utf8(gp));
            lemma_encode_utf8_injective(provider@, gp);
            assert forall|i: Seq<char>, p: Seq<char>| self@ == bot_id_text(i, p) implies provider@
                == p by {
                law_bot_id_text_injective(i, p, gi, gp);
            }
        }
        provider
    }
}


/// Events sent from the realtime client to the UI
#[derive(Debug, Clone)]
pub enum RealtimeEvent {
    /// Session is ready for communication
    SessionReady,
    /// Session has been configured with settings
    SessionConfigured,
    /// Audio data received (PCM16 format)
    AudioData(Vec<u8>),
    /// Text transcript of received audio
    AudioTranscript(String),
    /// User started speaking
    SpeechStarted,
    /// User stopped speaking
    SpeechStopped,
    /// AI response completed
    ResponseCompleted,
    /// Error occurred
    Error(String),
    /// The bot asks for a function to be called
    FunctionCallRequest { name: String, call_id: String, arguments: String },
    /// The transcript of an audio response is complete (transcript, item id)
    AudioTranscriptCompleted(String, String),
    /// The transcript of what the user said is complete (transcript, item id)
    UserTranscriptCompleted(String, String),
}

/// Commands sent from the UI to the realtime client
#[derive(Debug, Clone)]
pub enum RealtimeCommand {
    /// Start the realtime session
    StartSession,
    /// Stop the realtime session
    StopSession,
    /// Send audio data (PCM16 format)
    SendAudio(Vec<u8>),
    /// Send text message
    SendText(String),
    /// Interrupt current AI response
    Interrupt,
    /// Configure interruption handling
    SetInterruptionEnabled(bool),
    /// Update session configuration
    UpdateSessionConfig { voice: String, transcription_model: String },
    /// Create a greeting response from AI
    CreateGreetingResponse,
    /// Send the result of a function call the bot asked for
    SendFunctionCallResult { call_id: String, output: String },
}

/// Indentify the entities that are recognized by this crate, mainly in a chat.
#[derive(PartialEq, Eq, Hash, Debug, Default)]
pub enum EntityId {
    /// Represents the user operating this app.
    User,
    /// Represents the `system`/`developer` expected by many LLMs in the chat
    /// context to customize the chat experience and behavior.
    System,
    /// Represents a bot, which is an automated assistant of any kind (model, agent, etc).
    Bot(BotId),
    /// This app itself. Normally appears when app specific information must be displayed
    /// (like inline errors).
    ///
    /// It's not supposed to be sent as part of a conversation to bots.
    #[default]
    App,
    /// Represents the tools called on behalf of a bot; messages from it tell of
    /// tool calls running and of their results.
    Tool,
}

impl Clone for EntityId {
    fn clone(&self) -> (r: EntityId)
        ensures
            r == *self,
    {
        match self {
            EntityId::User => EntityId::User,
            EntityId::System => EntityId::System,
            EntityId::Bot(id) => EntityId::Bot(id.clone()),
            EntityId::App => EntityId::App,
            EntityId::Tool => EntityId::Tool,
        }
    }
}

/// Represents the capabilities of a bot
#[derive(Clone, Copy, Debug, PartialEq, Eq, Hash, Structural)]
pub enum BotCapability {
    /// Bot supports realtime audio communication
    Realtime,
    /// Bot supports image/file attachments
    Attachments,
    /// Bot supports function calling
    FunctionCalling,
}

/// Set of capabilities that a bot supports
#[derive(Debug)]
pub struct BotCapabilities {
    capabilities: Vec<BotCapability>,
}

impl View for BotCapabilities {
    type V = Set<BotCapability>;

    closed spec fn view(&self) -> Set<BotCapability> {
        self.capabilities@.to_set()
    }
}

impl Clone for BotCapabilities {
    fn clone(&self) -> (r: BotCapabilities)
        ensures
            r@ == self@,
    {
        proof {
            use_type_invariant(self);
        }
        let mut capabilities: Vec<BotCapability> = Vec::new();
        let mut i: usize = 0;
        while i < self.capabilities.len()
            invariant
                i <= self.capabilities@.len(),
                capabilities@ == self.capabilities@.take(i as int),
            decreases self.capabilities@.len() - i,
        {
            capabilities.push(self.capabilities[i]);
            i += 1;
        }
        assert(self.capabilities@.take(i as int) == self.capabilities@);
        BotCapabilities { capabilities }
    }
}

impl Default for BotCapabilities {
    fn default() -> (r: BotCapabilities)
        ensures
            r@ == Set::<BotCapability>::empty(),
    {
        BotCapabilities::new()
    }
}

impl BotCapabilities {
    #[verifier::type_invariant]
    spec fn no_duplicates(self) -> bool {
        self.capabilities@.no_duplicates()
    }

    /// The empty set of capabilities.
    pub fn new() -> (r: BotCapabilities)
        ensures
            r@ == Set::<BotCapability>::empty(),
    {
        let r = BotCapabilities { capabilities: Vec::new() };
        assert(r@ =~= Set::<BotCapability>::empty());
        r
    }

    /// This set with `capability` added.
    pub fn with_capability(self, capability: BotCapability) -> (r: BotCapabilities)
        ensures
            r@ == self@.insert(capability),
    {
        let mut this = self;
        this.add_capability(capability);
        this
    }

    /// Adds `capability` to the set.
    pub fn add_capability(&mut self, capability: BotCapability)
        ensures
            final(self)@ == old(self)@.insert(capability),
    {
        proof {
            use_type_invariant(&*self);
        }
        if !self.has_capability(&capability) {
            let ghost before = self.capabilities@;
            let mut caps: Vec<BotCapability> = Vec::new();
            std::mem::swap(&mut caps, &mut self.capabilities);
            caps.push(capability);
            proof {
                assert(caps@ == before.push(capability));
                assert(caps@.no_duplicates());
            }
            *self = BotCapabilities { capabilities: caps };
            proof {
                assert(self.capabilities@ == before.push(capability));
                assert(self.capabilities@.to_set() =~= before.to_set().insert(capability)) by {
                    assert forall|c: BotCapability| self.capabilities@.contains(c) <==> (
                    before.contains(c) || c == capability) by {
                        if self.capabilities@.contains(c) {
                            let k = choose|k: int|
                                0 <= k < self.capabilities@.len() && self.capabilities@[k] == c;
                            if k < before.len() {
                                assert(before[k] == c);
                            }
                        }
                        if before.contains(c) {
                            let k = choose|k: int| 0 <= k < before.len() && before[k] == c;
                            assert(self.capabilities@[k] == c);
                        }
                        if c == capability {
                            assert(self.capabilities@[before.len() as int] == c);
                        }
                    }
                }
            }
        } else {
            assert(self@ =~= old(self)@.insert(capability));
        }
    }

    /// Whether `capability` is in the set.
    pub fn has_capability(&self, capability: &BotCapability) -> (r: bool)
        ensures
            r == self@.contains(*capability),
    {
        let mut i: usize = 0;
        while i < self.capabilities.len()
            invariant
                i <= self.capabilities@.len(),
                forall|j: int| 0 <= j < i ==> self.capabilities@[j] != *capability,
            decreases self.capabilities@.len() - i,
        {
            if self.capabilities[i] == *capability {
                assert(self.capabilities@.contains(*capability));
                return true;
            }
            i += 1;
        }
        false
    }

    /// Whether the bot supports realtime audio communication.
    pub fn supports_realtime(&self) -> (r: bool)
        ensures
            r == self@.contains(BotCapability::Realtime),
    {
        self.has_capability(&BotCapability::Realtime)
    }

    /// Whether the bot supports image/file attachments.
    pub fn supports_attachments(&self) -> (r: bool)
        ensures
            r == self@.contains(BotCapability::Attachments),
    {
        self.has_capability(&BotCapability::Attachments)
    }

    /// Whether the bot supports function calling.
    pub fn supports_function_calling(&self) -> (r: bool)
        ensures
            r == self@.contains(BotCapability::FunctionCalling),
    {
        self.has_capability(&BotCapability::FunctionCalling)
    }

    /// The capabilities in the set, each once.
    pub fn iter(&self) -> (r: &[BotCapability])
        ensures
            r@.to_set() == self@,
            r@.no_duplicates(),
    {
        proof {
            use_type_invariant(self);
        }
        self.capabilities.as_slice()
    }
}

/// The picture/avatar of an entity that may be represented/encoded in different ways.
#[derive(Debug)]
pub enum Picture {
    Grapheme(String),
    Image(String),
}

/// Abstract form of a [`Picture`].
pub ghost enum PictureView {
    Grapheme(Seq<char>),
    Image(Seq<char>),
}

impl View for Picture {
    type V = PictureView;

    open spec fn view(&self) -> PictureView {
        match self {
            Picture::Grapheme(g) => PictureView::Grapheme(g@),
            Picture::Image(i) => PictureView::Image(i@),
        }
    }
}

impl Clone for Picture {
    fn clone(&self) -> (r: Picture)
        ensures
            r@ == self@,
    {
        match self {
            Picture::Grapheme(g) => Picture::Grapheme(g.clone()),
            Picture::Image(i) => Picture::Image(i.clone()),
        }
    }
}

/// Represents a bot, an automated assistant of any kind (model, agent, etc).
#[derive(Debug)]
pub struct Bot {
    /// Unique internal identifier for the bot across all providers
    pub id: BotId,
    pub name: String,
    pub avatar: Picture,
    pub capabilities: BotCapabilities,
}

/// Abstract form of a [`Bot`].
pub ghost struct BotView {
    pub id: Seq<char>,
    pub name: Seq<char>,
    pub avatar: PictureView,
    pub capabilities: Set<BotCapability>,
}

impl View for Bot {
    type V = BotView;

    open spec fn view(&self) -> BotView {
        BotView {
            id: self.id@,
            name: self.name@,
            avatar: self.avatar@,
            capabilities: self.capabilities@,
        }
    }
}

impl Clone for Bot {
    fn clone(&self) -> (r: Bot)
        ensures
            r@ == self@,
    {
        Bot {
            id: self.id.clone(),
            name: self.name.clone(),
            avatar: self.avatar.clone(),
            capabilities: self.capabilities.clone(),
        }
    }
}

/// The abstract forms of a list of bots.
pub open spec fn bot_views(v: Seq<Bot>) -> Seq<BotView> {
    v.map_values(|b: Bot| b@)
}

/// The standard error kinds a client implementatiin should facilitate.
#[derive(Debug, Clone, Copy, PartialEq, Eq, Hash, Structural)]
pub enum ClientErrorKind {
    /// The network connection could not be established properly or was lost.
    Network,
    /// The connection could be established, but the remote server/peer gave us
    /// an error.
    Response,
    /// The remote server/peer returned a successful response, but we can't parse
    /// its content.
    Format,
    /// A kind of error that is not contemplated by MolyKit at the client layer.
    Unknown,
}

impl ClientErrorKind {
    /// The label shown to users for this kind of error.
    pub open spec fn human_readable(self) -> Seq<char> {
        match self {
            ClientErrorKind::Network => "Network error"@,
            ClientErrorKind::Response => "Remote error"@,
            ClientErrorKind::Format => "Format error"@,
            ClientErrorKind::Unknown => "Unknown error"@,
        }
    }

    pub fn to_human_readable(&self) -> (r: &str)
        ensures
            r@ == self.human_readable(),
    {
        match self {
            ClientErrorKind::Network => "Network error",
            ClientErrorKind::Response => "Remote error",
            ClientErrorKind::Format => "Format error",
            ClientErrorKind::Unknown => "Unknown error",
        }
    }
}

/// Standard error returned from client operations.
///
/// The underlying error it was built from, if any, is kept as its message text.
#[derive(Debug, Clone)]
pub struct ClientError {
    kind: ClientErrorKind,
    message: String,
    source: Option<String>,
}

impl ClientError {
    /// The kind of this error.
    pub closed spec fn spec_kind(&self) -> ClientErrorKind {
        self.kind
    }

    /// The message of this error.
    pub closed spec fn spec_message(&self) -> Seq<char> {
        self.message@
    }

    /// The text of the underlying error, if there is one.
    pub closed spec fn spec_source(&self) -> Option<Seq<char>> {
        match self.source {
            Some(s) => Some(s@),
            None => None,
        }
    }

    /// Construct a simple client error without source.
    ///
    /// If you have an underlying error you want to include as the source, use
    /// [ClientError::new_with_source] instead.
    pub fn new(kind: ClientErrorKind, message: String) -> (r: ClientError)
        ensures
            r.spec_kind() == kind,
            r.spec_message() == message@,
            r.spec_source() == None::<Seq<char>>,
    {
        ClientError { kind, message, source: None }
    }

    /// Construct a client error using an underlying error as the source.
    pub fn new_with_source<S: std::fmt::Display>(
        kind: ClientErrorKind,
        message: String,
        source: Option<S>,
    ) -> (r: ClientError)
        ensures
            r.spec_kind() == kind,
            r.spec_message() == message@,
            source is None ==> r.spec_source() == None::<Seq<char>>,
            source matches Some(s) ==> exists|text: String|
                vstd::string::to_string_from_display_ensures::<S>(&s, text) && r.spec_source()
                    == Some(text@),
    {
        let source = match source {
            Some(s) => Some(s.to_string()),
            None => None,
        };
        ClientError { kind, message, source }
    }

    /// Error kind accessor.
    pub fn kind(&self) -> (r: ClientErrorKind)
        ensures
            r == self.spec_kind(),
    {
        self.kind
    }

    /// Error message accessor.
    pub fn message(&self) -> (r: &str)
        ensures
            r@ == self.spec_message(),
    {
        self.message.as_str()
    }

    /// The text of the underlying error, if there is one.
    pub fn source_message(&self) -> (r: Option<&str>)
        ensures
            match r {
                Some(t) => self.spec_source() == Some(t@),
                None => self.spec_source() == None::<Seq<char>>,
            },
    {
        match &self.source {
            Some(s) => Some(s.as_str()),
            None => None,
        }
    }

    /// The text shown for this error: `<kind label>: <message>`.
    pub fn to_display_string(&self) -> (r: String)
        ensures
            r@ == self.spec_kind().human_readable() + ": "@ + self.spec_message(),
    {
        let mut r = String::from_str(self.kind.to_human_readable());
        r.append(": ");
        r.append(self.message.as_str());
        r
    }
}

/// The message of the error that stands in for the missing details of a failed
/// operation.
pub open spec fn no_details_message() -> Seq<char> {
    "An error ocurred, but no details were provided."@
}

/// `errors` as given, or, when empty, a single [`ClientErrorKind::Unknown`] error
/// saying that no details were provided.
pub open spec fn errors_or_default(given: Seq<ClientError>, errors: Seq<ClientError>) -> bool {
    if given.len() == 0 {
        &&& errors.len() == 1
        &&& errors[0].spec_kind() == ClientErrorKind::Unknown
        &&& errors[0].spec_message() == no_details_message()
        &&& errors[0].spec_source() == None::<Seq<char>>
    } else {
        errors == given
    }
}

fn non_empty_errors(errors: Vec<ClientError>) -> (r: Vec<ClientError>)
    ensures
        errors_or_default(errors@, r@),
{
    if errors.len() == 0 {
        let mut r: Vec<ClientError> = Vec::new();
        r.push(
            ClientError::new(
                ClientErrorKind::Unknown,
                String::from_str("An error ocurred, but no details were provided."),
            ),
        );
        r
    } else {
        errors
    }
}

impl vstd::std_specs::convert::FromSpecImpl<ClientError> for Vec<ClientError> {
    open spec fn obeys_from_spec() -> bool {
        false
    }

    open spec fn from_spec(v: ClientError) -> Vec<ClientError> {
        arbitrary()
    }
}

impl From<ClientError> for Vec<ClientError> {
    /// A list holding just this error.
    fn from(error: ClientError) -> (r: Vec<ClientError>)
        ensures
            r@ == seq![error],
    {
        vec![error]
    }
}

impl<T> vstd::std_specs::convert::FromSpecImpl<ClientError> for ClientResult<T> {
    open spec fn obeys_from_spec() -> bool {
        false
    }

    open spec fn from_spec(v: ClientError) -> ClientResult<T> {
        arbitrary()
    }
}

impl<T> From<ClientError> for ClientResult<T> {
    /// A result with this error and no value.
    fn from(error: ClientError) -> (r: ClientResult<T>)
        ensures
            r.spec_value() is None,
            r.spec_errors() == seq![error],
    {
        ClientResult::new_err(vec![error])
    }
}

/// The outcome of a client operation.
///
/// Different from the standard Result, this one may contain more than one error.
/// And at the same time, even if an error ocurrs, there may be a value to rescue.
///
/// It would be mistake if this contains no value and no errors at the same time.
/// This is taken care on creation time, and it can't be modified afterwards.
#[derive(Debug)]
pub struct ClientResult<T> {
    errors: Vec<ClientError>,
    value: Option<T>,
}

impl<T> ClientResult<T> {
    #[verifier::type_invariant]
    spec fn has_value_or_errors(self) -> bool {
        self.value is Some || self.errors@.len() > 0
    }

    /// The value to rescue, if any.
    pub closed spec fn spec_value(&self) -> Option<T> {
        self.value
    }

    /// The errors.
    pub closed spec fn spec_errors(&self) -> Seq<ClientError> {
        self.errors@
    }

    /// Every result holds a value or at least one error.
    pub fn value_or_errors(&self) -> (r: bool)
        ensures
            r,
            self.spec_value() is Some || self.spec_errors().len() > 0,
    {
        proof {
            use_type_invariant(self);
        }
        true
    }

    /// Creates a result containing a successful value and no errors.
    pub fn new_ok(value: T) -> (r: ClientResult<T>)
        ensures
            r.spec_value() == Some(value),
            r.spec_errors() == Seq::<ClientError>::empty(),
    {
        ClientResult { errors: Vec::new(), value: Some(value) }
    }

    /// Creates a result containing errors and no value to rescue.
    ///
    /// The errors list should be non empty. If it's empty a default error will
    /// be added to avoid the invariant of having no value and no errors at the
    /// same time.
    pub fn new_err(errors: Vec<ClientError>) -> (r: ClientResult<T>)
        ensures
            r.spec_value() == None::<T>,
            errors_or_default(errors@, r.spec_errors()),
    {
        ClientResult { errors: non_empty_errors(errors), value: None }
    }

    /// Creates a result containing errors and a value to rescue.
    ///
    /// Similar to [ClientResult::new_err], if the errors list is empty, a default
    /// error will be added.
    pub fn new_ok_and_err(value: T, errors: Vec<ClientError>) -> (r: ClientResult<T>)
        ensures
            r.spec_value() == Some(value),
            errors_or_default(errors@, r.spec_errors()),
    {
        ClientResult { errors: non_empty_errors(errors), value: Some(value) }
    }

    /// Returns the successful value if there is one.
    pub fn value(&self) -> (r: Option<&T>)
        ensures
            match r {
                Some(v) => self.spec_value() == Some(*v),
                None => self.spec_value() is None,
            },
    {
        self.value.as_ref()
    }

    /// Returns the errors list.
    pub fn errors(&self) -> (r: &[ClientError])
        ensures
            r@ == self.spec_errors(),
    {
        self.errors.as_slice()
    }

    /// Returns true if there is a successful value.
    pub fn has_value(&self) -> (r: bool)
        ensures
            r == self.spec_value() is Some,
    {
        self.value.is_some()
    }

    /// Returns true if there are errors.
    pub fn has_errors(&self) -> (r: bool)
        ensures
            r == (self.spec_errors().len() > 0),
    {
        !self.errors.is_empty()
    }

    /// Consume the result and return the successful value if there is one.
    pub fn into_value(self) -> (r: Option<T>)
        ensures
            r == self.spec_value(),
    {
        self.value
    }

    /// Consume the result and return the errors list.
    pub fn into_errors(self) -> (r: Vec<ClientError>)
        ensures
            r@ == self.spec_errors(),
    {
        self.errors
    }

    /// Consume the result and return the successful value and the errors list.
    pub fn into_value_and_errors(self) -> (r: (Option<T>, Vec<ClientError>))
        ensures
            r.0 == self.spec_value(),
            r.1@ == self.spec_errors(),
    {
        (self.value, self.errors)
    }

    /// Consume the result to convert it into a standard Result.
    pub fn into_result(self) -> (r: Result<T, Vec<ClientError>>)
        ensures
            self.spec_errors().len() == 0 ==> r == Ok::<T, Vec<ClientError>>(
                self.spec_value()->Some_0,
            ),
            self.spec_errors().len() > 0 ==> (r matches Err(e) && e@ == self.spec_errors()),
    {
        proof {
            use_type_invariant(&self);
        }
        if self.errors.is_empty() {
            match self.value {
                Some(v) => Ok(v),
                None => Err(self.errors),
            }
        } else {
            Err(self.errors)
        }
    }
}

/// A tool that a bot can call, as an MCP server describes it.
#[derive(Debug, PartialEq)]
pub struct Tool {
    /// The name the tool is called by.
    pub name: String,
    /// What the tool does, for the bot.
    pub description: Option<String>,
    /// The JSON schema of the arguments, as JSON text.
    pub input_schema: String,
}

/// Abstract form of a [`Tool`].
pub ghost struct ToolView {
    pub name: Seq<char>,
    pub description: Option<Seq<char>>,
    pub input_schema: Seq<char>,
}

impl View for Tool {
    type V = ToolView;

    open spec fn view(&self) -> ToolView {
        ToolView {
            name: self.name@,
            description: match self.description {
                Some(d) => Some(d@),
                None => None,
            },
            input_schema: self.input_schema@,
        }
    }
}

impl Clone for Tool {
    fn clone(&self) -> (r: Tool)
        ensures
            r@ == self@,
    {
        Tool {
            name: self.name.clone(),
            description: match &self.description {
                Some(d) => Some(d.clone()),
                None => None,
            },
            input_schema: self.input_schema.clone(),
        }
    }
}

/// Whether the user allowed a tool call to run.
#[derive(Clone, Copy, Debug, PartialEq, Eq, Hash, Structural)]
pub enum ToolCallPermissionStatus {
    /// The user has not decided yet.
    Pending,
    /// The user allowed the call.
    Approved,
    /// The user refused the call.
    Denied,
}

/// A call of a tool requested by a bot.
#[derive(Debug, PartialEq)]
pub struct ToolCall {
    /// Identifies the call within the conversation.
    pub id: String,
    /// The (namespaced) name of the tool to call.
    pub name: String,
    /// The arguments of the call, as a JSON object text.
    pub arguments: String,
    /// Whether the user allowed the call.
    pub permission_status: ToolCallPermissionStatus,
}

/// The result of running a tool call.
#[derive(Debug, PartialEq)]
pub struct ToolResult {
    /// The id of the call this is the result of.
    pub tool_call_id: String,
    /// What the tool gave back, or the error.
    pub content: String,
    /// The tool failed.
    pub is_error: bool,
}

impl Clone for ToolCall {
    fn clone(&self) -> (r: ToolCall)
        ensures
            r == *self,
    {
        ToolCall {
            id: self.id.clone(),
            name: self.name.clone(),
            arguments: self.arguments.clone(),
            permission_status: self.permission_status,
        }
    }
}

impl Clone for ToolResult {
    fn clone(&self) -> (r: ToolResult)
        ensures
            r == *self,
    {
        ToolResult {
            tool_call_id: self.tool_call_id.clone(),
            content: self.content.clone(),
            is_error: self.is_error,
        }
    }
}


/// Metadata automatically tracked for each message.
#[derive(Clone, Copy, Debug, PartialEq, Eq, Structural)]
pub struct MessageMetadata {
    /// Runtime flag indicating that the message is still incomplete (being written).
    pub is_writing: bool,
    /// When the message got created, in microseconds since the Unix epoch (UTC).
    pub created_at: i64,
    /// Last time the reasoning/thinking content was updated, in the same unit.
    pub reasoning_updated_at: i64,
    /// Last time the main text was updated, in the same unit.
    pub text_updated_at: i64,
}

impl MessageMetadata {
    /// Metadata of a message that is not being written, created at `now`
    /// (microseconds since the Unix epoch), every timestamp set to `now`.
    pub fn new(now: i64) -> (r: MessageMetadata)
        ensures
            !r.is_writing,
            r.created_at == now,
            r.reasoning_updated_at == now,
            r.text_updated_at == now,
    {
        MessageMetadata {
            is_writing: false,
            created_at: now,
            reasoning_updated_at: now,
            text_updated_at: now,
        }
    }

    /// Metadata of a message that is not being written, every timestamp at the
    /// Unix epoch.
    pub fn epoch() -> (r: MessageMetadata)
        ensures
            r == MessageMetadata::spec_new(0),
    {
        MessageMetadata::new(0)
    }

    /// What `new` gives for the time `now`.
    pub open spec fn spec_new(now: i64) -> MessageMetadata {
        MessageMetadata {
            is_writing: false,
            created_at: now,
            reasoning_updated_at: now,
            text_updated_at: now,
        }
    }

    pub fn is_idle(&self) -> (r: bool)
        ensures
            r == !self.is_writing,
    {
        !self.is_writing
    }

    pub fn is_writing(&self) -> (r: bool)
        ensures
            r == self.is_writing,
    {
        self.is_writing
    }
}

/// Standard message content format.
#[derive(Debug, PartialEq)]
pub struct MessageContent {
    /// The main body/document of this message, normally markdown.
    pub text: String,
    /// List of citations/sources (urls) associated with this message.
    pub citations: Vec<String>,
    /// The reasoning/thinking content of this message.
    pub reasoning: String,
    /// The tool calls a bot asked for in this message.
    pub tool_calls: Vec<ToolCall>,
    /// The results of tool calls this message reports.
    pub tool_results: Vec<ToolResult>,
    /// Non-standard data contained by this message.
    pub data: Option<String>,
}

/// Abstract form of a [`MessageContent`]: its lists as sequences.
pub ghost struct MessageContentView {
    pub text: String,
    pub citations: Seq<String>,
    pub reasoning: String,
    pub tool_calls: Seq<ToolCall>,
    pub tool_results: Seq<ToolResult>,
    pub data: Option<String>,
}

impl View for MessageContent {
    type V = MessageContentView;

    open spec fn view(&self) -> MessageContentView {
        MessageContentView {
            text: self.text,
            citations: self.citations@,
            reasoning: self.reasoning,
            tool_calls: self.tool_calls@,
            tool_results: self.tool_results@,
            data: self.data,
        }
    }
}

impl Clone for MessageContent {
    fn clone(&self) -> (r: MessageContent)
        ensures
            r@ == self@,
    {
        let r = MessageContent {
            text: self.text.clone(),
            citations: self.citations.clone(),
            reasoning: self.reasoning.clone(),
            tool_calls: self.tool_calls.clone(),
            tool_results: self.tool_results.clone(),
            data: self.data.clone(),
        };
        assert(r.citations@ =~= self.citations@);
        assert(r.tool_calls@ =~= self.tool_calls@);
        assert(r.tool_results@ =~= self.tool_results@);
        r
    }
}

impl MessageContent {
    /// The content holds no data at all.
    pub open spec fn spec_is_empty(&self) -> bool {
        &&& self.text@.len() == 0
        &&& self.citations@.len() == 0
        &&& self.data is None
        &&& self.reasoning@.len() == 0
    }

    /// The content holds the text `text` and nothing else.
    pub open spec fn holds_only_text(&self, text: Seq<char>) -> bool {
        &&& self.text@ == text
        &&& self.citations@.len() == 0
        &&& self.reasoning@.len() == 0
        &&& self.tool_calls@.len() == 0
        &&& self.tool_results@.len() == 0
        &&& self.data is None
    }

    /// Checks if the content is absolutely empty (contains no data at all).
    pub fn is_empty(&self) -> (r: bool)
        ensures
            r == self.spec_is_empty(),
    {
        self.text.as_str().is_empty() && self.citations.len() == 0 && self.data.is_none()
            && self.reasoning.as_str().is_empty()
    }
}

impl Default for MessageContent {
    fn default() -> (r: MessageContent)
        ensures
            r.holds_only_text(Seq::empty()),
    {
        MessageContent {
            text: String::new(),
            citations: Vec::new(),
            reasoning: String::new(),
            tool_calls: Vec::new(),
            tool_results: Vec::new(),
            data: None,
        }
    }
}

/// A message that is part of a conversation.
#[derive(Debug, PartialEq)]
pub struct Message {
    /// The id of who sent this message.
    pub from: EntityId,
    /// Auto-generated metadata for this message.
    pub metadata: MessageMetadata,
    /// The parsed content of this message ready to present.
    pub content: MessageContent,
}

/// Abstract form of a [`Message`].
pub ghost struct MessageView {
    pub from: EntityId,
    pub metadata: MessageMetadata,
    pub content: MessageContentView,
}

impl View for Message {
    type V = MessageView;

    open spec fn view(&self) -> MessageView {
        MessageView { from: self.from, metadata: self.metadata, content: self.content@ }
    }
}

impl Clone for Message {
    fn clone(&self) -> (r: Message)
        ensures
            r@ == self@,
    {
        Message { from: self.from.clone(), metadata: self.metadata, content: self.content.clone() }
    }
}

impl Message {
    /// A message of the app itself holding only the text `text`, not being written.
    pub open spec fn is_app_text(self, text: Seq<char>) -> bool {
        &&& self.from is App
        &&& !self.metadata.is_writing
        &&& self.content.holds_only_text(text)
    }

    /// `after` is the message `before` with its content set to `content` at the
    /// time `now`: the time the text was last updated becomes `now` where the
    /// text changes and stays otherwise, and likewise for the reasoning.
    pub open spec fn content_set(
        before: MessageView,
        after: Message,
        content: MessageContent,
        now: i64,
    ) -> bool {
        &&& after.content == content
        &&& after.from == before.from
        &&& after.metadata.is_writing == before.metadata.is_writing
        &&& after.metadata.created_at == before.metadata.created_at
        &&& after.metadata.text_updated_at == (if content.text@ == before.content.text@ {
            before.metadata.text_updated_at
        } else {
            now
        })
        &&& after.metadata.reasoning_updated_at == (if content.reasoning@
            == before.content.reasoning@ {
            before.metadata.reasoning_updated_at
        } else {
            now
        })
    }

    /// Sets the content of the message as a whole at the time `now` (also
    /// updates the metadata).
    pub fn set_content(&mut self, content: MessageContent, now: i64)
        ensures
            Message::content_set(old(self)@, *final(self), content, now),
    {
        let text_changed = !str_eq(content.text.as_str(), self.content.text.as_str());
        let reasoning_changed = !str_eq(
            content.reasoning.as_str(),
            self.content.reasoning.as_str(),
        );
        self.content = content;
        if text_changed {
            self.metadata.text_updated_at = now;
        }
        if reasoning_changed {
            self.metadata.reasoning_updated_at = now;
        }
    }

    /// Updates parts of the content of the message with `f`, called once on
    /// the content, at the time `now` (also updates the metadata, as
    /// `set_content` does with the updated content).
    pub fn update_content(&mut self, f: impl FnOnce(&mut MessageContent), now: i64)
        requires
            forall|c: &mut MessageContent| *c == old(self).content ==> call_requires(f, (c,)),
        ensures
            exists|c: &mut MessageContent|
                *c == old(self).content && call_ensures(f, (c,), ()) && Message::content_set(
                    old(self)@,
                    *final(self),
                    *final(c),
                    now,
                ),
    {
        let ghost before_self = *self;
        let mut content = MessageContent::default();
        std::mem::swap(&mut content, &mut self.content);
        let ghost before = content;
        let old_text = content.text.clone();
        let old_reasoning = content.reasoning.clone();
        f(&mut content);
        let text_changed = !str_eq(content.text.as_str(), old_text.as_str());
        let reasoning_changed = !str_eq(content.reasoning.as_str(), old_reasoning.as_str());
        self.content = content;
        if text_changed {
            self.metadata.text_updated_at = now;
        }
        if reasoning_changed {
            self.metadata.reasoning_updated_at = now;
        }
        assert(Message::content_set(before_self@, *self, self.content, now));
    }

    /// An error of the app shown in the chat at the time `now`: a message of the
    /// app holding the text of the error.
    pub fn app_error(text: &str, now: i64) -> (r: Message)
        ensures
            r.is_app_text(text@),
            r.metadata == MessageMetadata::spec_new(now),
    {
        let mut content = MessageContent::default();
        content.text = text.to_string();
        Message { from: EntityId::App, metadata: MessageMetadata::new(now), content }
    }
}

} // verus!
