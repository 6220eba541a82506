//! In-memory core of a small chat bot that proxies user requests to a
//! hosted git service: a per-user credential store, a bidirectional
//! chat/address registry, a bot-identity holder, and the session state
//! machine that drives the conversation (ask name, ask token, free chat).
//!
//! All I/O (the bot platform, HTTP calls, model inference) happens outside
//! this crate; the functions here take plain values and return plain values,
//! and every function is verified against its contract.

pub mod chatbot;
pub mod command;
pub mod context;
pub mod controller;
pub mod gitlab;
pub mod text;
