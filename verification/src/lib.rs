//! The decisions of a local proxy in front of OpenAI-compatible upstream sites.
//!
//! The proxy holds accounts on many sites and forwards each request with one of them. This
//! crate is its logic: which key to use for an account, which model a request names, what an
//! answer says of an account and whether another is tried, which models there are, and what
//! the commands of the application report. Everything that is read from or sent to the network
//! comes in and goes out as plain values, so that the functions here can be stated exactly and
//! proved.
//!
//! - [`key_fetcher`]: from an account's access token to its API key.
//! - [`retry`]: forwarding a request, with retries on other accounts.
//! - [`openai`]: request bodies, error bodies and the list of models.
//! - [`models`]: where upstreams list their models, and in which order the caches are asked.
//! - [`account`]: accounts, and the refresh of their keys.
//! - [`service`]: the commands of the application.
//! - [`json`] and [`codec`]: JSON values as plain data, and `serde_json` behind them.
//! - [`headers`]: request headers, with the header types of `reqwest` behind them.
//! - [`text`]: decimal numbers, comparison and trimming of texts.
//!
//! The functions named `law_..` state what holds of several functions together.

pub mod account;
pub mod codec;
pub mod headers;
pub mod json;
pub mod key_fetcher;
pub mod models;
pub mod openai;
pub mod retry;
pub mod service;
pub mod text;
