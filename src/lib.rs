//! Command-argument interpreter of a chat assistant: tokenizing utterances,
//! matching them against per-command grammars, resolving references to
//! channels, roles and members, and the follow-up protocol that settles an
//! ambiguous reference.
pub mod text;
pub mod grammar;
pub mod resolve;
pub mod pending;
pub mod registry;
pub mod commands;
pub mod dispatch;
