use vstd::prelude::*;

pub mod amortized_string;
pub mod api_server;
pub mod backend;
pub mod bots;
pub mod chars;
pub mod chat;
pub mod deep_inquire;
pub mod deep_inquire_client;
pub mod errors;
pub mod mcp;
pub mod model_cards;
pub mod openai;
pub mod protocol;
pub mod realtime;
pub mod sse;
pub mod str_map;
pub mod text;
pub mod tool_execution;
pub mod vec;
pub mod vec_laws;

verus! {

} // verus!
