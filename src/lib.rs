//! Live-data core of a chat client: a keyed resolution cache that never
//! fetches a key twice, the connection state machine of a line-oriented chat
//! protocol, and a batching engine for periodic stream-status checks.

pub mod batch;
pub mod channel;
pub mod client;
pub mod config;
pub mod data;
pub mod domain;
pub mod emotes;
pub mod frame;
pub mod fut;
pub mod identity;
pub mod input;
pub mod keyed;
pub mod queue;
pub mod ready;
pub mod repaint;
pub mod resolver;
pub mod screen;
pub mod session;
pub mod stream_check;
pub mod text;
pub mod wire;
