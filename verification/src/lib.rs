//! The core of a launcher for tunnel clients: it starts worker processes,
//! keeps a table of them, shows their output with secrets redacted, and
//! guards them, which is to start a worker again when it has died, unless a
//! user stopped it or its log shows an error that a restart cannot mend.
//!
//! Every function here is verified against its contract. What the operating
//! system and the network do is left to the caller: processes and files come
//! in through the traits of `process`, answers of the network as plain
//! values. The few calls whose contracts are taken on trust are gathered in
//! `outside`.

pub mod autostart;
pub mod custom_tunnel;
pub mod download;
pub mod http;
pub mod launcher;
pub mod models;
pub mod monitor;
pub mod outside;
pub mod ping;
pub mod process;
pub mod process_guard;
pub mod scan;
pub mod text;
pub mod utils;
