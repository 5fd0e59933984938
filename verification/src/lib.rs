//! Provider configuration lifecycle engine for a multi-tool skills hub.
//!
//! The crate keeps named provider profiles for several AI command-line
//! tools, switches a tool's live on-disk configuration between providers
//! without losing unrelated settings, backs a displaced provider up and
//! restores it, and materialises reusable skill directories into
//! per-agent, per-project locations.  All state transitions are pure
//! functions over plain data; the surrounding process performs the file
//! reads and writes and feeds their results in.
//!
//! The document model lives in [`doc`], its text formats in
//! [`envtext`]; per-tool merge and validation in [`configstore`]; the
//! records and whole-state snapshot in [`records`]; the provider
//! registry, switch engine and universal-provider fan-out in
//! [`registry`], [`switch`] and [`universal`]; kits in [`kits`];
//! skill-bundle rules in [`skills`], [`paths`] and [`import`];
//! configuration bookkeeping in [`stateops`].

pub mod clock;
pub mod configstore;
pub mod doc;
pub mod envtext;
pub mod import;
pub mod kits;
pub mod paths;
pub mod records;
pub mod registry;
pub mod skills;
pub mod stateops;
pub mod switch;
pub mod strutil;
pub mod types;
pub mod universal;
