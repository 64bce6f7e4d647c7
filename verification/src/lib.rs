use vstd::prelude::*;

pub mod text;
pub mod digest;
pub mod split;
pub mod http;
pub mod upstream;
pub mod models;
pub mod json;
pub mod usage;
pub mod collection;
pub mod errors;
pub mod stats;
pub mod clock;
pub mod account;
pub mod routing;
pub mod config;
pub mod web_profile;
pub mod cursor_oauth;
pub mod rewrite_queue;
pub mod quota;
pub mod takeover;
pub mod affinity;
pub mod profile_path;
pub mod responses;
pub mod toolnames;
pub mod chat_payload;
pub mod upstream_body;
pub mod images;
pub mod chat_request;
pub mod chat_stream;
pub mod image_payload;
pub mod lan;
pub mod diagnostics;
pub mod multipart;
pub mod windows;
pub mod usage_log;
pub mod routing_state;
pub mod proxy;
pub mod prepare;
pub mod sidecar;
pub mod websocket;
pub mod lifecycle;
pub mod key_edits;
pub mod codex_body;
pub mod route;
pub mod pool;
pub mod ws_pool;
pub mod codex_config;
pub mod app_server;

verus! {
} // verus!
