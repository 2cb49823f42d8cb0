//! Local vault: secrets from OS randomness, saved locally, named by references.
pub mod app;
pub mod calendar;
pub mod cli;
pub mod config;
pub mod context;
pub mod crypto;
pub mod encoding;
pub mod install;
pub mod journal;
pub mod kat;
pub mod owner;
pub mod platform;
pub mod protocol;
pub mod remote;
pub mod sealed;
pub mod serve;
pub mod storage;
pub mod table;
pub mod text;
pub mod wire;
