//! A provider of completions by Gemini models: which models there are, what is asked of the
//! service and what its answers mean.
//!
//! - [`provider`]: the state of the provider and the models that it shows;
//! - [`models`] and [`discovery`]: model names, their order, and the models that answers name;
//! - [`message`], [`contents`], [`tools`], [`schema`]: the conversation and the tools, as the
//!   caller keeps them and as the service takes them;
//! - [`request`] and [`response`]: what goes out and what comes in;
//! - [`json`], [`json_text`], [`content_json`]: JSON values, their text, and contents as JSON;
//! - [`errors`], [`mock`], [`text`]: failures, a provider that refuses, and text.
pub mod content_json;
pub mod contents;
pub mod discovery;
pub mod errors;
pub mod json;
pub mod json_text;
pub mod message;
pub mod mock;
pub mod models;
pub mod provider;
pub mod request;
pub mod response;
pub mod schema;
pub mod text;
pub mod tools;
