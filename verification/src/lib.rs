//! Extension runtime core for the pi coding agent.
//!
//! The library holds the logic of the runtime that hosts untrusted
//! JavaScript extensions, each part verified against its contract:
//!
//! - `policy`: the capability set and the five-layer precedence evaluation,
//!   with proofs that the deny layers cannot be overridden;
//! - `perms`: recorded permission decisions — the prompt cache and the
//!   persisted permission file's content — with last-write semantics proved
//!   on every operation;
//! - `hostcall`: host-call requests, their validation, the capability
//!   mapping, the authorization plan, and the resolver table that answers
//!   each call exactly once;
//! - `event_loop`: the deterministic macrotask scheduler and its clocks,
//!   with the proof that buffered completions run before the timers a tick
//!   fires;
//! - `events`: the lifecycle event catalogue and the folding of handler
//!   responses;
//! - `registry`: the catalogue of registered tools, commands, flags,
//!   shortcuts, providers, renderers and event hooks;
//! - `session`, `session_index`, `auth`: session entries and their
//!   bookkeeping, index rows, and credential precedence;
//! - `tools`, `search`, `text`, `hints`, `inclusion`, `model`: the text
//!   logic the built-in tools share, pattern search, error hints, and
//!   extension classification.
//!
//! File, network, process and engine I/O live outside the library and hand
//! it plain values.

pub mod auth;
pub mod event_loop;
pub mod events;
pub mod hints;
pub mod hostcall;
pub mod inclusion;
pub mod model;
pub mod perms;
pub mod policy;
pub mod registry;
pub mod search;
pub mod session;
pub mod session_index;
pub mod text;
pub mod tools;
