//! Built-in extensions for a build-configuration scripting language and the
//! staged escalation of diagnostics raised from evaluated scripts.
//!
//! - [`pattern`]: `regex_match`, on top of the `fancy_regex` engine.
//! - [`escalation`]: stable keys, diagnostic records and the two halves of a
//!   report, for a host that asks a sink of its own.
//! - [`sink`]: the escalation policy, the sink that records every report,
//!   and `soft_error` on top of both.
//! - [`namespace`]: the namespace of a module under evaluation and
//!   `load_symbols`, which binds names into it.
//! - [`registry`]: the flat namespace of built-in functions, composed group
//!   by group, in which no name is defined twice.
//! - [`text`]: string helpers.

pub mod escalation;
pub mod namespace;
pub mod pattern;
pub mod registry;
pub mod sink;
pub mod text;
