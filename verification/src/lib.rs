//! Layered configuration retrieval.
//!
//! Configuration values are looked up by key in a fixed priority order:
//! first the contents of a file whose path is named by an indirection
//! environment variable (`KEY` plus a suffix, by default `_FILE`), then the
//! `KEY` environment variable itself, then any registered dotenv files.
//! The raw string found is then run through a chain of typed conversions.
//!
//! The process environment and the filesystem are passed in as plain value
//! snapshots ([`envmap::EnvMap`] and [`filestore::FileStore`]), so every
//! lookup, parsing and conversion rule in this crate is pure and verified;
//! reading the real environment and real files is left to thin adapters
//! around the library.
//!
//! The layers, from the bottom up:
//! - [`envvars`] and [`envfiles`]: one source each, with its error taxonomy;
//! - [`envdot`]: the dotenv file format and its parser;
//! - [`cache`]: the resolution engine and its precedence contract;
//! - [`any`] and [`multi`]: two-source lookups wrapping converted values;
//! - [`handle`]: the required/optional policy;
//! - [`config`]: declarative blocks of memoized accessors.

pub mod any;
pub mod cache;
pub mod config;
pub mod conversion;
pub mod envdot;
pub mod envfiles;
pub mod envmap;
pub mod envvars;
pub mod filestore;
pub mod handle;
pub mod multi;
pub mod strutil;
