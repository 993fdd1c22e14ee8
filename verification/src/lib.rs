//! The request-item mini-language of an HTTPie-style command line and its
//! translation into an equivalent `curl` invocation.
//!
//! A request item is one bare token (`key=value`, `key:=json`, `key==query`,
//! `key:header`, `key@file`). [`request_items`] parses such tokens and
//! assembles a list of them into a request body; [`to_curl`] turns the same
//! items, with the flags that came with them, into a [`to_curl::Command`]
//! and renders it for a POSIX shell or for `cmd.exe`.
//!
//! The grammar of a token and its laws are in [`grammar`]. What other
//! crates do for the library is stated, and not proved, in [`json`]
//! (`serde_json`), [`headers`] (`http`, through `reqwest`),
//! [`request_url`] (`url`) and [`shell`] (`shell-escape`,
//! `serde_urlencoded`); what the library does with it is proved.
pub mod cli;
pub mod cookies;
pub mod entries;
pub mod error;
pub mod grammar;
pub mod headers;
pub mod json;
pub mod method;
pub mod request_items;
pub mod request_url;
pub mod shell;
pub mod text;
pub mod to_curl;
