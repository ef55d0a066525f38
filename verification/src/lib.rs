//! Ragent: the verified core of an AI agent chat platform.
//!
//! The library holds the logic of the platform: the arithmetic expression
//! tokenizer and parser behind the calculator tool, the decisions of the
//! web-search and code-sandbox tools, the request shaping of the chat agent,
//! password hashing and token checks, the data models, and the state machine
//! of a chat socket.  Network, database, process and clock work lives in the
//! application around it.

pub mod calculator;
pub mod spacing;
pub mod literals;
pub mod text;
pub mod error;
pub mod models;
pub mod auth;
pub mod web_search;
pub mod code_sandbox;
pub mod tools;
pub mod agent;
pub mod ws_events;
pub mod api;
