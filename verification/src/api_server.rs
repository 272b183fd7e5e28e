//! The decisions of the local API server that runs a model: the arguments it
//! is started with, whether a running server can be kept when a model is
//! (re)loaded, and how long to wait between attempts to reach it.
use vstd::prelude::*;
use vstd::string::StringExecFns;

use crate::protocol::decimal_string_u64;
use vstd::slice::slice_subrange;
use crate::text::{decimal, str_eq};

verus! {

/// How many GPU layers a model is loaded with.
#[derive(Clone, Copy, Debug, PartialEq, Eq, Structural)]
pub enum GpuLayers {
    /// A given number of layers.
    Specific(u32),
    /// As many as fit.
    Max,
}

/// What the server is started with, as plain values: the options the model is
/// loaded with and what the downloaded file says of it.
pub struct ServerLaunch {
    /// The context size asked for, if any.
    pub n_ctx: Option<u32>,
    /// The batch size asked for, if any.
    pub n_batch: Option<u32>,
    pub gpu_layers: GpuLayers,
    /// The prompt template asked for, if any.
    pub prompt_template: Option<String>,
    /// The context size the file was trained with.
    pub file_context_size: u64,
    /// The prompt template of the file (empty where it has none).
    pub file_prompt_template: String,
    /// The reverse prompt of the file (empty where it has none).
    pub file_reverse_prompt: String,
    /// The context size of the embedding model served beside it, if one is.
    pub embedding_ctx: Option<u64>,
    /// The address the server listens on, written out.
    pub listen_addr: String,
}

/// The largest context size used where none is asked for.
pub const DEFAULT_MAX_CONTEXT: u64 = 8192;

/// The batch size used where none is asked for.
pub const DEFAULT_BATCH: u32 = 128;

/// `value`, followed by `,` and the embedding context size where there is one.
pub open spec fn with_embedding(value: Seq<char>, embedding_ctx: Option<u64>) -> Seq<char> {
    match embedding_ctx {
        Some(e) => value + ","@ + decimal(e as nat),
        None => value,
    }
}

/// The context size argument.
pub open spec fn spec_ctx_arg(l: ServerLaunch) -> Seq<char> {
    let ctx = match l.n_ctx {
        Some(n) => decimal(n as nat),
        None => decimal(
            (if l.file_context_size < DEFAULT_MAX_CONTEXT {
                l.file_context_size
            } else {
                DEFAULT_MAX_CONTEXT
            }) as nat,
        ),
    };
    with_embedding(ctx, l.embedding_ctx)
}

/// The batch size argument.
pub open spec fn spec_batch_arg(l: ServerLaunch) -> Seq<char> {
    let batch = match l.n_batch {
        Some(n) => n,
        None => DEFAULT_BATCH,
    };
    with_embedding(decimal(batch as nat), l.embedding_ctx)
}

/// The prompt template argument, if there is one: the one asked for, else the
/// file's; with `,embedding` after it where an embedding model is served.
pub open spec fn spec_prompt_arg(l: ServerLaunch) -> Option<Seq<char>> {
    let template = match l.prompt_template {
        Some(t) => Some(t@),
        None => if l.file_prompt_template@.len() > 0 {
            Some(l.file_prompt_template@)
        } else {
            None
        },
    };
    match template {
        Some(t) => Some(
            if l.embedding_ctx is Some {
                t + ",embedding"@
            } else {
                t
            },
        ),
        None => None,
    }
}

/// The model aliases the server serves.
pub open spec fn spec_aliases(l: ServerLaunch) -> Seq<char> {
    if l.embedding_ctx is Some {
        "moly-chat,moly-embedding"@
    } else {
        "moly-chat"@
    }
}

/// `flag` and `value`, where there is a value.
pub open spec fn flag(name: Seq<char>, value: Option<Seq<char>>) -> Seq<Seq<char>> {
    match value {
        Some(v) => seq![name, v],
        None => Seq::empty(),
    }
}

/// The command line the server is started with.
pub open spec fn spec_server_args(l: ServerLaunch) -> Seq<Seq<char>> {
    seq!["llama-api-server"@, "-a"@, spec_aliases(l), "-m"@, spec_aliases(l)]
        + flag("-c"@, Some(spec_ctx_arg(l)))
        + flag("-g"@, match l.gpu_layers {
            GpuLayers::Specific(n) => Some(decimal(n as nat)),
            GpuLayers::Max => None,
        })
        + flag("-b"@, Some(spec_batch_arg(l)))
        + flag("-p"@, spec_prompt_arg(l))
        + flag("-r"@, if l.file_reverse_prompt@.len() > 0 {
            Some(l.file_reverse_prompt@)
        } else {
            None
        })
        + flag("--socket-addr"@, Some(l.listen_addr@))
}

/// The text of a `u32`.
fn u32_text(n: u32) -> (r: String)
    ensures
        r@ == decimal(n as nat),
{
    decimal_string_u64(n as u64)
}

/// Appends `,` and the embedding context size, where there is one.
fn append_embedding(s: &mut String, embedding_ctx: Option<u64>)
    ensures
        final(s)@ == with_embedding(old(s)@, embedding_ctx),
{
    if let Some(e) = embedding_ctx {
        s.append(",");
        let t = decimal_string_u64(e);
        s.append(t.as_str());
    }
}

/// Pushes `name` and `value` onto `args`, where there is a value.
fn push_flag(args: &mut Vec<String>, name: &str, value: Option<String>)
    ensures
        final(args)@.map_values(|a: String| a@) == old(args)@.map_values(|a: String| a@) + flag(
            name@,
            match value {
                Some(v) => Some(v@),
                None => None,
            },
        ),
{
    let ghost before = args@;
    if let Some(v) = value {
        args.push(String::from_str(name));
        args.push(v);
    }
    assert(args@.map_values(|a: String| a@) =~= before.map_values(|a: String| a@) + flag(
        name@,
        match value {
            Some(v) => Some(v@),
            None => None,
        },
    ));
}

/// The command line the server is started with: its name, the model aliases,
/// then a flag and a value for the context size, the GPU layers (unless as many
/// as fit), the batch size, the prompt template and the reverse prompt (where
/// there are ones), and the address to listen on.
pub fn server_args(l: &ServerLaunch) -> (r: Vec<String>)
    ensures
        r@.map_values(|a: String| a@) == spec_server_args(*l),
{
    let mut aliases = String::from_str("moly-chat");
    if l.embedding_ctx.is_some() {
        aliases.append(",moly-embedding");
    }
    proof {
        reveal_strlit("moly-chat");
        reveal_strlit(",moly-embedding");
        reveal_strlit("moly-chat,moly-embedding");
    }
    assert(aliases@ == spec_aliases(*l));
    let mut args: Vec<String> = Vec::new();
    args.push(String::from_str("llama-api-server"));
    args.push(String::from_str("-a"));
    args.push(aliases.clone());
    args.push(String::from_str("-m"));
    args.push(aliases);
    assert(args@.map_values(|a: String| a@) =~= seq![
        "llama-api-server"@,
        "-a"@,
        spec_aliases(*l),
        "-m"@,
        spec_aliases(*l),
    ]);

    let mut ctx = match l.n_ctx {
        Some(n) => u32_text(n),
        None => {
            let size = if l.file_context_size < DEFAULT_MAX_CONTEXT {
                l.file_context_size
            } else {
                DEFAULT_MAX_CONTEXT
            };
            decimal_string_u64(size)
        },
    };
    append_embedding(&mut ctx, l.embedding_ctx);
    push_flag(&mut args, "-c", Some(ctx));

    let gpu = match l.gpu_layers {
        GpuLayers::Specific(n) => Some(u32_text(n)),
        GpuLayers::Max => None,
    };
    push_flag(&mut args, "-g", gpu);

    let batch = match l.n_batch {
        Some(n) => n,
        None => DEFAULT_BATCH,
    };
    let mut batch_text = u32_text(batch);
    append_embedding(&mut batch_text, l.embedding_ctx);
    push_flag(&mut args, "-b", Some(batch_text));

    let template = match &l.prompt_template {
        Some(t) => Some(t.clone()),
        None => if l.file_prompt_template.as_str().is_empty() {
            None
        } else {
            Some(l.file_prompt_template.clone())
        },
    };
    let prompt = match template {
        Some(t) => {
            let mut t = t;
            if l.embedding_ctx.is_some() {
                t.append(",embedding");
            }
            Some(t)
        },
        None => None,
    };
    push_flag(&mut args, "-p", prompt);

    let reverse = if l.file_reverse_prompt.as_str().is_empty() {
        None
    } else {
        Some(l.file_reverse_prompt.clone())
    };
    push_flag(&mut args, "-r", reverse);

    push_flag(&mut args, "--socket-addr", Some(l.listen_addr.clone()));
    args
}

/// What is known of a running server, as plain values.
pub struct ServerState {
    /// The id of the file whose model it runs.
    pub file_id: String,
    /// The address it listens on, written out.
    pub listen_addr: String,
    /// The context size it was asked to load with, if any.
    pub n_ctx: Option<u32>,
    /// The batch size it was asked to load with, if any.
    pub n_batch: Option<u32>,
    /// The path and context size of the embedding model it serves, if any.
    pub embedding: Option<(String, u64)>,
    /// It failed to start.
    pub failed: bool,
}

/// Two embedding settings are the same.
pub open spec fn same_embedding(a: Option<(String, u64)>, b: Option<(String, u64)>) -> bool {
    match (a, b) {
        (Some((pa, ca)), Some((pb, cb))) => pa@ == pb@ && ca == cb,
        (None, None) => true,
        _ => false,
    }
}

/// The running server `old` serves what is asked for already: it did not fail,
/// runs the same file on the same address, and was loaded with the same
/// context size, batch size and embedding model.
pub open spec fn spec_can_keep(
    old: ServerState,
    file_id: Seq<char>,
    listen_addr: Seq<char>,
    n_ctx: Option<u32>,
    n_batch: Option<u32>,
    embedding: Option<(String, u64)>,
) -> bool {
    &&& !old.failed
    &&& old.file_id@ == file_id
    &&& old.listen_addr@ == listen_addr
    &&& old.n_ctx == n_ctx
    &&& old.n_batch == n_batch
    &&& same_embedding(old.embedding, embedding)
}

/// What loading a model does about the server.
#[derive(Clone, Copy, Debug, PartialEq, Eq, Structural)]
pub enum ReloadDecision {
    /// The running server serves what is asked for: keep it.
    Keep,
    /// Start a new server, after stopping the running one where `stop_old`.
    Start { stop_old: bool },
}

/// What loading a model does about the server: keep the running one where it
/// serves what is asked for; otherwise start a new one, stopping the running
/// one first unless it failed (a failed one may have lost its port to another
/// service, which must not be stopped).
pub fn reload_decision(
    old: Option<&ServerState>,
    file_id: &str,
    listen_addr: &str,
    n_ctx: Option<u32>,
    n_batch: Option<u32>,
    embedding: &Option<(String, u64)>,
) -> (r: ReloadDecision)
    ensures
        r == (match old {
            Some(o) => if spec_can_keep(*o, file_id@, listen_addr@, n_ctx, n_batch, *embedding) {
                ReloadDecision::Keep
            } else {
                ReloadDecision::Start { stop_old: !o.failed }
            },
            None => ReloadDecision::Start { stop_old: false },
        }),
{
    match old {
        None => ReloadDecision::Start { stop_old: false },
        Some(o) => {
            let same_embedding = match (&o.embedding, embedding) {
                (Some((pa, ca)), Some((pb, cb))) => str_eq(pa.as_str(), pb.as_str()) && *ca == *cb,
                (None, None) => true,
                _ => false,
            };
            if !o.failed && str_eq(o.file_id.as_str(), file_id) && str_eq(
                o.listen_addr.as_str(),
                listen_addr,
            ) && o.n_ctx == n_ctx && o.n_batch == n_batch && same_embedding {
                ReloadDecision::Keep
            } else {
                ReloadDecision::Start { stop_old: !o.failed }
            }
        },
    }
}

/// How many times a new server is probed before it is given up.
pub const PROBE_ATTEMPTS: u32 = 6;

/// The wait after a failed probe, in milliseconds: 500, doubled after each attempt.
pub open spec fn spec_retry_delay_ms(attempt: nat) -> nat
    decreases attempt,
{
    if attempt == 0 {
        500
    } else {
        2 * spec_retry_delay_ms((attempt - 1) as nat)
    }
}

/// The wait after the failed probe number `attempt` (from 0), in milliseconds.
pub fn retry_delay_ms(attempt: u32) -> (r: u64)
    requires
        attempt < PROBE_ATTEMPTS,
    ensures
        r == spec_retry_delay_ms(attempt as nat),
{
    let mut d: u64 = 500;
    let mut i: u32 = 0;
    while i < attempt
        invariant
            i <= attempt < PROBE_ATTEMPTS,
            d == spec_retry_delay_ms(i as nat),
            d <= 500 * 32,
        decreases attempt - i,
    {
        proof {
            reveal_with_fuel(spec_retry_delay_ms, 6);
        }
        d = d * 2;
        i += 1;
    }
    d
}

/// What follows a probe of a new server.
#[derive(Clone, Copy, Debug, PartialEq, Eq, Structural)]
pub enum ProbeStep {
    /// It answered: it is up.
    Ready,
    /// Wait this many milliseconds, then probe again.
    RetryAfter(u64),
    /// Wait this many milliseconds, then give the server up.
    GiveUpAfter(u64),
}

/// What follows the probe number `attempt` (from 0) of a new server, which
/// answered or not: it is up; or, after the wait of that attempt, it is probed
/// again, unless that was the last attempt.
pub fn probe_step(attempt: u32, answered: bool) -> (r: ProbeStep)
    requires
        attempt < PROBE_ATTEMPTS,
    ensures
        r == (if answered {
            ProbeStep::Ready
        } else if attempt + 1 < PROBE_ATTEMPTS {
            ProbeStep::RetryAfter(spec_retry_delay_ms(attempt as nat) as u64)
        } else {
            ProbeStep::GiveUpAfter(spec_retry_delay_ms(attempt as nat) as u64)
        }),
{
    if answered {
        ProbeStep::Ready
    } else if attempt + 1 < PROBE_ATTEMPTS {
        ProbeStep::RetryAfter(retry_delay_ms(attempt))
    } else {
        ProbeStep::GiveUpAfter(retry_delay_ms(attempt))
    }
}

/// The bytes of `data: [DONE]`, the chunk that ends a streamed answer.
pub open spec fn done_marker() -> Seq<u8> {
    seq![100u8, 97, 116, 97, 58, 32, 91, 68, 79, 78, 69, 93]
}

/// The chunk starts with `data: [DONE]`.
pub open spec fn is_done_chunk(chunk: Seq<u8>) -> bool {
    chunk.len() >= 12 && chunk.subrange(0, 12) == done_marker()
}

/// What a chunk streamed by the server carries: nothing where it ends the
/// answer (it starts with `data: [DONE]`); else the JSON after its `data:`
/// prefix (its first 5 bytes).
pub fn chunk_payload(chunk: &[u8]) -> (r: Option<&[u8]>)
    requires
        !is_done_chunk(chunk@) ==> chunk@.len() >= 5,
    ensures
        r is None <==> is_done_chunk(chunk@),
        r matches Some(p) ==> p@ == chunk@.subrange(5, chunk@.len() as int),
{
    let marker: [u8; 12] = [100, 97, 116, 97, 58, 32, 91, 68, 79, 78, 69, 93];
    let mut done = chunk.len() >= 12;
    let mut i: usize = 0;
    while done && i < 12
        invariant
            i <= 12,
            marker@ == done_marker(),
            done ==> chunk@.len() >= 12 && forall|j: int| 0 <= j < i ==> chunk@[j] == done_marker()[j],
            !done ==> !is_done_chunk(chunk@),
        decreases 12 - i,
    {
        if chunk[i] != marker[i] {
            done = false;
        }
        i += 1;
    }
    if done {
        assert(chunk@.subrange(0, 12) =~= done_marker());
        None
    } else {
        Some(slice_subrange(chunk, 5, chunk.len()))
    }
}

/// A running server is kept on a reload exactly when it did not fail and was
/// started for the same file, on the same address, with the same context
/// size, batch size and embedding model (same path and context size); any
/// difference restarts it.
pub proof fn law_kept_server_serves_the_same_load(
    old: ServerState,
    file_id: Seq<char>,
    listen_addr: Seq<char>,
    n_ctx: Option<u32>,
    n_batch: Option<u32>,
    embedding: Option<(String, u64)>,
)
    ensures
        spec_can_keep(old, file_id, listen_addr, n_ctx, n_batch, embedding) <==> {
            &&& !old.failed
            &&& old.file_id@ == file_id
            &&& old.listen_addr@ == listen_addr
            &&& old.n_ctx == n_ctx
            &&& old.n_batch == n_batch
            &&& (old.embedding is Some <==> embedding is Some)
            &&& old.embedding is Some ==> old.embedding->Some_0.0@ == embedding->Some_0.0@
                && old.embedding->Some_0.1 == embedding->Some_0.1
        },
{
}

} // verus!
