use moly_kit::api_server::{
    chunk_payload, probe_step, reload_decision, retry_delay_ms, server_args, GpuLayers, ProbeStep, ReloadDecision,
    ServerLaunch, ServerState, PROBE_ATTEMPTS,
};

fn launch() -> ServerLaunch {
    ServerLaunch {
        n_ctx: None,
        n_batch: None,
        gpu_layers: GpuLayers::Max,
        prompt_template: None,
        file_context_size: 32768,
        file_prompt_template: "llama-3-chat".into(),
        file_reverse_prompt: String::new(),
        embedding_ctx: None,
        listen_addr: "127.0.0.1:8080".into(),
    }
}

#[test]
fn server_args_with_defaults() {
    assert_eq!(
        server_args(&launch()),
        vec![
            "llama-api-server", "-a", "moly-chat", "-m", "moly-chat", "-c", "8192", "-b", "128",
            "-p", "llama-3-chat", "--socket-addr", "127.0.0.1:8080",
        ]
    );
}

#[test]
fn server_args_with_options_and_embedding() {
    let mut l = launch();
    l.n_ctx = Some(4096);
    l.n_batch = Some(64);
    l.gpu_layers = GpuLayers::Specific(20);
    l.prompt_template = Some("chatml".into());
    l.file_reverse_prompt = "<|im_end|>".into();
    l.embedding_ctx = Some(512);
    assert_eq!(
        server_args(&l),
        vec![
            "llama-api-server",
            "-a",
            "moly-chat,moly-embedding",
            "-m",
            "moly-chat,moly-embedding",
            "-c",
            "4096,512",
            "-g",
            "20",
            "-b",
            "64,512",
            "-p",
            "chatml,embedding",
            "-r",
            "<|im_end|>",
            "--socket-addr",
            "127.0.0.1:8080",
        ]
    );
}

#[test]
fn server_args_small_context_and_no_template() {
    let mut l = launch();
    l.file_context_size = 2048;
    l.file_prompt_template = String::new();
    assert_eq!(
        server_args(&l),
        vec![
            "llama-api-server", "-a", "moly-chat", "-m", "moly-chat", "-c", "2048", "-b", "128",
            "--socket-addr", "127.0.0.1:8080",
        ]
    );
}

fn running() -> ServerState {
    ServerState {
        file_id: "f".into(),
        listen_addr: "127.0.0.1:8080".into(),
        n_ctx: Some(4096),
        n_batch: None,
        embedding: Some(("emb.gguf".into(), 512)),
        failed: false,
    }
}

#[test]
fn same_load_keeps_the_server() {
    let emb = Some(("emb.gguf".to_string(), 512));
    let old = running();
    assert_eq!(
        reload_decision(Some(&old), "f", "127.0.0.1:8080", Some(4096), None, &emb),
        ReloadDecision::Keep
    );
}

#[test]
fn other_loads_restart_the_server() {
    let emb = Some(("emb.gguf".to_string(), 512));
    let old = running();
    assert_eq!(
        reload_decision(Some(&old), "g", "127.0.0.1:8080", Some(4096), None, &emb),
        ReloadDecision::Start { stop_old: true }
    );
    assert_eq!(
        reload_decision(Some(&old), "f", "127.0.0.1:8080", Some(4096), None, &None),
        ReloadDecision::Start { stop_old: true }
    );
    let mut failed = running();
    failed.failed = true;
    assert_eq!(
        reload_decision(Some(&failed), "f", "127.0.0.1:8080", Some(4096), None, &emb),
        ReloadDecision::Start { stop_old: false }
    );
    assert_eq!(
        reload_decision(None, "f", "127.0.0.1:8080", None, None, &None),
        ReloadDecision::Start { stop_old: false }
    );
}

#[test]
fn probe_waits_double() {
    let waits: Vec<u64> = (0..PROBE_ATTEMPTS).map(retry_delay_ms).collect();
    assert_eq!(waits, vec![500, 1000, 2000, 4000, 8000, 16000]);
    assert_eq!(waits.iter().sum::<u64>(), 31500);
}

#[test]
fn probe_steps() {
    assert_eq!(probe_step(0, true), ProbeStep::Ready);
    assert_eq!(probe_step(0, false), ProbeStep::RetryAfter(500));
    assert_eq!(probe_step(4, false), ProbeStep::RetryAfter(8000));
    assert_eq!(probe_step(5, false), ProbeStep::GiveUpAfter(16000));
}

#[test]
fn streamed_chunks_carry_json_until_done() {
    assert_eq!(chunk_payload(b"data: {\"a\":1}"), Some(&b" {\"a\":1}"[..]));
    assert_eq!(chunk_payload(b"data: [DONE]"), None);
    assert_eq!(chunk_payload(b"data: [DONE]\n\n"), None);
    assert_eq!(chunk_payload(b"data: [DON"), Some(&b" [DON"[..]));
}
